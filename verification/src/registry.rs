//! The connection registry: a cache of live connections, by server and by
//! database name. A connection is either cached here or checked out, never
//! both: `checkout` hands the cached value over and forgets it, and `checkin`
//! takes it back.

use crate::text::{decimal, decimal_text, same_text};
use crate::types::Backend;
use vstd::prelude::*;
use vstd::string::StringExecFns;

verus! {

/// A live connection to one of the two backends: `S` is the handle of the
/// embedded file database, `P` that of the network server.
#[derive(Debug)]
pub enum DbConnection<S, P> {
    /// A connection to an embedded file database.
    Sqlite(S),
    /// A connection to a network server.
    Postgres(P),
}

impl<S, P> DbConnection<S, P> {
    /// The backend that a connection belongs to.
    pub open spec fn backend_of(self) -> Backend {
        match self {
            DbConnection::Sqlite(_) => Backend::Sqlite,
            DbConnection::Postgres(_) => Backend::Postgres,
        }
    }

    /// The backend that the connection belongs to.
    pub fn backend(&self) -> (backend: Backend)
        ensures
            backend == self.backend_of(),
    {
        match self {
            DbConnection::Sqlite(_) => Backend::Sqlite,
            DbConnection::Postgres(_) => Backend::Postgres,
        }
    }
}

/// The identity of one cached connection.
#[derive(Clone, Debug, PartialEq, Eq)]
pub struct ConnectionKey {
    pub server_id: i32,
    pub database_name: String,
}

impl ConnectionKey {
    /// Whether two keys name the same server and the same database.
    pub open spec fn same_as(self, other: ConnectionKey) -> bool {
        self.server_id == other.server_id && self.database_name@ == other.database_name@
    }

    /// A second copy of the key.
    pub fn duplicate(&self) -> (copy: ConnectionKey)
        ensures
            copy.same_as(*self),
    {
        ConnectionKey { server_id: self.server_id, database_name: self.database_name.clone() }
    }

    /// Whether this key and another name the same server and database.
    pub fn is_same_as(&self, other: &ConnectionKey) -> (same: bool)
        ensures
            same == self.same_as(*other),
    {
        self.server_id == other.server_id && same_text(
            self.database_name.as_str(),
            other.database_name.as_str(),
        )
    }
}

/// The mathematical content of a registry: for each server that has an
/// entry, the connections cached for it by database name. A server may have
/// an entry that holds no connection.
pub type Cache<C> = Map<i32, Map<Seq<char>, C>>;

/// The connection cached for a server and database, if there is one.
pub open spec fn cached<C>(cache: Cache<C>, server_id: i32, database: Seq<char>) -> Option<C> {
    if cache.dom().contains(server_id) && cache[server_id].dom().contains(database) {
        Some(cache[server_id][database])
    } else {
        None
    }
}

/// The cache after the connection for a server and database has left it. The
/// server's entry stays, even if it is now empty.
pub open spec fn without<C>(cache: Cache<C>, server_id: i32, database: Seq<char>) -> Cache<C> {
    if cache.dom().contains(server_id) {
        cache.insert(server_id, cache[server_id].remove(database))
    } else {
        cache
    }
}

/// The cache after a connection has been stored for a server and database,
/// in place of the one that was there, if any.
pub open spec fn with<C>(cache: Cache<C>, server_id: i32, database: Seq<char>, connection: C)
    -> Cache<C> {
    let databases = if cache.dom().contains(server_id) {
        cache[server_id]
    } else {
        Map::empty()
    };
    cache.insert(server_id, databases.insert(database, connection))
}

/// The cache after a connection has been offered for a server and database:
/// it is stored where the key had none, and else the cache is as it was.
pub open spec fn with_if_absent<C>(
    cache: Cache<C>,
    server_id: i32,
    database: Seq<char>,
    connection: C,
) -> Cache<C> {
    if cached(cache, server_id, database).is_none() {
        with(cache, server_id, database, connection)
    } else {
        cache
    }
}

/// The cache after a disconnect: without the connection of the named
/// database, or without the server's whole entry where none is named.
pub open spec fn disconnected<C>(cache: Cache<C>, server_id: i32, db_name: Option<String>)
    -> Cache<C> {
    match db_name {
        Some(name) => without(cache, server_id, name@),
        None => cache.remove(server_id),
    }
}

struct Entry<C> {
    database: String,
    connection: C,
}

struct Server<C> {
    server_id: i32,
    entries: Vec<Entry<C>>,
}

/// A cache of connections of type `C`.
pub struct Registry<C> {
    servers: Vec<Server<C>>,
}

spec fn names_distinct<C>(entries: Seq<Entry<C>>) -> bool {
    forall|i: int, j: int|
        0 <= i < j < entries.len() ==> (#[trigger] entries[i]).database@ != (
        #[trigger] entries[j]).database@
}

spec fn holds_name<C>(entries: Seq<Entry<C>>, database: Seq<char>) -> bool {
    exists|i: int| 0 <= i < entries.len() && (#[trigger] entries[i]).database@ == database
}

spec fn name_at<C>(entries: Seq<Entry<C>>, database: Seq<char>) -> int {
    choose|i: int| 0 <= i < entries.len() && (#[trigger] entries[i]).database@ == database
}

spec fn by_name<C>(entries: Seq<Entry<C>>) -> Map<Seq<char>, C> {
    Map::new(
        |database: Seq<char>| holds_name(entries, database),
        |database: Seq<char>| entries[name_at(entries, database)].connection,
    )
}

spec fn ids_distinct<C>(servers: Seq<Server<C>>) -> bool {
    forall|i: int, j: int|
        0 <= i < j < servers.len() ==> (#[trigger] servers[i]).server_id != (
        #[trigger] servers[j]).server_id
}

spec fn holds_id<C>(servers: Seq<Server<C>>, server_id: i32) -> bool {
    exists|i: int| 0 <= i < servers.len() && (#[trigger] servers[i]).server_id == server_id
}

spec fn id_at<C>(servers: Seq<Server<C>>, server_id: i32) -> int {
    choose|i: int| 0 <= i < servers.len() && (#[trigger] servers[i]).server_id == server_id
}

spec fn by_id<C>(servers: Seq<Server<C>>) -> Cache<C> {
    Map::new(
        |server_id: i32| holds_id(servers, server_id),
        |server_id: i32| by_name(servers[id_at(servers, server_id)].entries@),
    )
}

spec fn all_names_distinct<C>(servers: Seq<Server<C>>) -> bool {
    forall|i: int| 0 <= i < servers.len() ==> names_distinct((#[trigger] servers[i]).entries@)
}

proof fn lemma_name_found<C>(entries: Seq<Entry<C>>, i: int)
    requires
        names_distinct(entries),
        0 <= i < entries.len(),
    ensures
        holds_name(entries, entries[i].database@),
        name_at(entries, entries[i].database@) == i,
        by_name(entries).dom().contains(entries[i].database@),
        by_name(entries)[entries[i].database@] == entries[i].connection,
{
    let j = name_at(entries, entries[i].database@);
    assert(0 <= j < entries.len() && entries[j].database@ == entries[i].database@);
}

proof fn lemma_name_removed<C>(entries: Seq<Entry<C>>, i: int)
    requires
        names_distinct(entries),
        0 <= i < entries.len(),
    ensures
        names_distinct(entries.remove(i)),
        by_name(entries.remove(i)) == by_name(entries).remove(entries[i].database@),
{
    let rest = entries.remove(i);
    let gone = entries[i].database@;
    assert forall|a: int, b: int| 0 <= a < b < rest.len() implies (#[trigger] rest[a]).database@
        != (#[trigger] rest[b]).database@ by {
        let x = if a < i { a } else { a + 1 };
        let y = if b < i { b } else { b + 1 };
        assert(rest[a] == entries[x] && rest[b] == entries[y]);
    }
    assert forall|d: Seq<char>| holds_name(rest, d) <==> (holds_name(entries, d) && d != gone) by {
        if holds_name(rest, d) {
            let a = name_at(rest, d);
            let x = if a < i { a } else { a + 1 };
            assert(rest[a] == entries[x]);
            assert(entries[x].database@ == d);
        }
        if holds_name(entries, d) && d != gone {
            let x = name_at(entries, d);
            let a = if x < i { x } else { x - 1 };
            assert(rest[a] == entries[x]);
        }
    }
    assert forall|d: Seq<char>| holds_name(rest, d) implies by_name(rest)[d] == by_name(
        entries,
    )[d] by {
        let a = name_at(rest, d);
        let x = if a < i { a } else { a + 1 };
        assert(rest[a] == entries[x]);
        lemma_name_found(entries, x);
    }
    assert(by_name(rest) =~= by_name(entries).remove(gone));
}

proof fn lemma_name_pushed<C>(entries: Seq<Entry<C>>, entry: Entry<C>)
    requires
        names_distinct(entries),
        !holds_name(entries, entry.database@),
    ensures
        names_distinct(entries.push(entry)),
        by_name(entries.push(entry)) == by_name(entries).insert(entry.database@, entry.connection),
{
    let grown = entries.push(entry);
    assert forall|a: int, b: int| 0 <= a < b < grown.len() implies (#[trigger] grown[a]).database@
        != (#[trigger] grown[b]).database@ by {
        assert(grown[a] == entries[a]);
        if b < entries.len() {
            assert(grown[b] == entries[b]);
        }
    }
    assert(grown[entries.len() as int] == entry);
    assert forall|d: Seq<char>| holds_name(grown, d) <==> (holds_name(entries, d) || d
        == entry.database@) by {
        if holds_name(grown, d) {
            let a = name_at(grown, d);
            if a < entries.len() {
                assert(grown[a] == entries[a]);
            }
        }
        if holds_name(entries, d) {
            let x = name_at(entries, d);
            assert(grown[x] == entries[x]);
        }
    }
    assert forall|d: Seq<char>| holds_name(grown, d) implies by_name(grown)[d] == by_name(
        entries,
    ).insert(entry.database@, entry.connection)[d] by {
        let a = name_at(grown, d);
        lemma_name_found(grown, a);
        if a < entries.len() {
            assert(grown[a] == entries[a]);
            lemma_name_found(entries, a);
        }
    }
    assert(by_name(grown) =~= by_name(entries).insert(entry.database@, entry.connection));
}

proof fn lemma_id_found<C>(servers: Seq<Server<C>>, i: int)
    requires
        ids_distinct(servers),
        0 <= i < servers.len(),
    ensures
        holds_id(servers, servers[i].server_id),
        id_at(servers, servers[i].server_id) == i,
        by_id(servers).dom().contains(servers[i].server_id),
        by_id(servers)[servers[i].server_id] == by_name(servers[i].entries@),
{
    let j = id_at(servers, servers[i].server_id);
    assert(0 <= j < servers.len() && servers[j].server_id == servers[i].server_id);
}

proof fn lemma_id_removed<C>(servers: Seq<Server<C>>, i: int)
    requires
        ids_distinct(servers),
        all_names_distinct(servers),
        0 <= i < servers.len(),
    ensures
        ids_distinct(servers.remove(i)),
        all_names_distinct(servers.remove(i)),
        !holds_id(servers.remove(i), servers[i].server_id),
        by_id(servers.remove(i)) == by_id(servers).remove(servers[i].server_id),
{
    let rest = servers.remove(i);
    let gone = servers[i].server_id;
    assert forall|a: int, b: int| 0 <= a < b < rest.len() implies (#[trigger] rest[a]).server_id
        != (#[trigger] rest[b]).server_id by {
        let x = if a < i { a } else { a + 1 };
        let y = if b < i { b } else { b + 1 };
        assert(rest[a] == servers[x] && rest[b] == servers[y]);
    }
    assert forall|a: int| 0 <= a < rest.len() implies names_distinct(
        (#[trigger] rest[a]).entries@,
    ) by {
        let x = if a < i { a } else { a + 1 };
        assert(rest[a] == servers[x]);
    }
    assert forall|id: i32| holds_id(rest, id) <==> (holds_id(servers, id) && id != gone) by {
        if holds_id(rest, id) {
            let a = id_at(rest, id);
            let x = if a < i { a } else { a + 1 };
            assert(rest[a] == servers[x]);
            assert(servers[x].server_id == id);
        }
        if holds_id(servers, id) && id != gone {
            let x = id_at(servers, id);
            let a = if x < i { x } else { x - 1 };
            assert(rest[a] == servers[x]);
        }
    }
    assert forall|id: i32| holds_id(rest, id) implies by_id(rest)[id] == by_id(servers)[id] by {
        let a = id_at(rest, id);
        let x = if a < i { a } else { a + 1 };
        assert(rest[a] == servers[x]);
        lemma_id_found(servers, x);
    }
    assert(by_id(rest) =~= by_id(servers).remove(gone));
}

proof fn lemma_id_pushed<C>(servers: Seq<Server<C>>, server: Server<C>)
    requires
        ids_distinct(servers),
        all_names_distinct(servers),
        names_distinct(server.entries@),
        !holds_id(servers, server.server_id),
    ensures
        ids_distinct(servers.push(server)),
        all_names_distinct(servers.push(server)),
        by_id(servers.push(server)) == by_id(servers).insert(
            server.server_id,
            by_name(server.entries@),
        ),
{
    let grown = servers.push(server);
    assert forall|a: int, b: int| 0 <= a < b < grown.len() implies (#[trigger] grown[a]).server_id
        != (#[trigger] grown[b]).server_id by {
        assert(grown[a] == servers[a]);
        if b < servers.len() {
            assert(grown[b] == servers[b]);
        }
    }
    assert forall|a: int| 0 <= a < grown.len() implies names_distinct(
        (#[trigger] grown[a]).entries@,
    ) by {
        if a < servers.len() {
            assert(grown[a] == servers[a]);
        }
    }
    assert(grown[servers.len() as int] == server);
    assert forall|id: i32| holds_id(grown, id) <==> (holds_id(servers, id) || id
        == server.server_id) by {
        if holds_id(grown, id) {
            let a = id_at(grown, id);
            if a < servers.len() {
                assert(grown[a] == servers[a]);
            }
        }
        if holds_id(servers, id) {
            let x = id_at(servers, id);
            assert(grown[x] == servers[x]);
        }
    }
    assert forall|id: i32| holds_id(grown, id) implies by_id(grown)[id] == by_id(servers).insert(
        server.server_id,
        by_name(server.entries@),
    )[id] by {
        let a = id_at(grown, id);
        lemma_id_found(grown, a);
        if a < servers.len() {
            assert(grown[a] == servers[a]);
            lemma_id_found(servers, a);
        }
    }
    assert(by_id(grown) =~= by_id(servers).insert(server.server_id, by_name(server.entries@)));
}

fn find_name<C>(entries: &Vec<Entry<C>>, database: &str) -> (found: Option<usize>)
    ensures
        found matches Some(i) ==> i < entries@.len() && entries@[i as int].database@ == database@,
        found.is_none() ==> !holds_name(entries@, database@),
{
    let mut i: usize = 0;
    while i < entries.len()
        invariant
            i <= entries@.len(),
            forall|k: int| 0 <= k < i ==> (#[trigger] entries@[k]).database@ != database@,
        decreases entries@.len() - i,
    {
        if same_text(entries[i].database.as_str(), database) {
            return Some(i);
        }
        i = i + 1;
    }
    None
}

fn find_id<C>(servers: &Vec<Server<C>>, server_id: i32) -> (found: Option<usize>)
    ensures
        found matches Some(i) ==> i < servers@.len() && servers@[i as int].server_id == server_id,
        found.is_none() ==> !holds_id(servers@, server_id),
{
    let mut i: usize = 0;
    while i < servers.len()
        invariant
            i <= servers@.len(),
            forall|k: int| 0 <= k < i ==> (#[trigger] servers@[k]).server_id != server_id,
        decreases servers@.len() - i,
    {
        if servers[i].server_id == server_id {
            return Some(i);
        }
        i = i + 1;
    }
    None
}

impl<C> View for Registry<C> {
    type V = Cache<C>;

    closed spec fn view(&self) -> Cache<C> {
        by_id(self.servers@)
    }
}

impl<C> Registry<C> {
    #[verifier::type_invariant]
    spec fn well_formed(self) -> bool {
        ids_distinct(self.servers@) && all_names_distinct(self.servers@)
    }

    /// A registry that caches nothing.
    pub fn new() -> (registry: Self)
        ensures
            registry@ == Map::<i32, Map<Seq<char>, C>>::empty(),
    {
        let registry = Registry { servers: Vec::new() };
        assert(registry@ =~= Map::<i32, Map<Seq<char>, C>>::empty());
        registry
    }

    /// Whether the server has an entry, with or without connections in it.
    pub fn knows_server(&self, server_id: i32) -> (known: bool)
        ensures
            known == self@.dom().contains(server_id),
    {
        find_id(&self.servers, server_id).is_some()
    }

    /// Whether a connection is cached for the key.
    pub fn contains(&self, key: &ConnectionKey) -> (present: bool)
        ensures
            present == cached(self@, key.server_id, key.database_name@).is_some(),
    {
        proof {
            use_type_invariant(self);
        }
        match find_id(&self.servers, key.server_id) {
            None => false,
            Some(s) => {
                proof {
                    lemma_id_found(self.servers@, s as int);
                }
                find_name(&self.servers[s].entries, key.database_name.as_str()).is_some()
            },
        }
    }

    /// Removes and returns the connection cached for the key. `None` says
    /// that no connection is cached for it; the registry is then unchanged.
    pub fn checkout(&mut self, key: &ConnectionKey) -> (connection: Option<C>)
        ensures
            connection == cached(old(self)@, key.server_id, key.database_name@),
            final(self)@ == without(old(self)@, key.server_id, key.database_name@),
            connection.is_none() ==> final(self)@ == old(self)@,
    {
        proof {
            use_type_invariant(&*self);
            if cached(self@, key.server_id, key.database_name@).is_none() {
                taking_nothing_changes_nothing(self@, key.server_id, key.database_name@);
            }
        }
        let mut servers: Vec<Server<C>> = Vec::new();
        std::mem::swap(&mut self.servers, &mut servers);
        let connection = match find_id(&servers, key.server_id) {
            None => None,
            Some(s) => {
                proof {
                    lemma_id_found(servers@, s as int);
                }
                match find_name(&servers[s].entries, key.database_name.as_str()) {
                    None => {
                        assert(by_name(servers@[s as int].entries@).remove(key.database_name@)
                            =~= by_name(servers@[s as int].entries@));
                        assert(by_id(servers@) =~= without(
                            by_id(servers@),
                            key.server_id,
                            key.database_name@,
                        ));
                        None
                    },
                    Some(e) => {
                        proof {
                            lemma_id_removed(servers@, s as int);
                            lemma_name_found(servers@[s as int].entries@, e as int);
                            lemma_name_removed(servers@[s as int].entries@, e as int);
                        }
                        let mut server = servers.remove(s);
                        let entry = server.entries.remove(e);
                        proof {
                            lemma_id_pushed(servers@, server);
                        }
                        servers.push(server);
                        assert(by_id(servers@) =~= without(
                            old(self)@,
                            key.server_id,
                            key.database_name@,
                        ));
                        Some(entry.connection)
                    },
                }
            },
        };
        self.servers = servers;
        connection
    }

    /// Stores a connection for the key, in place of the one cached for it, if
    /// any. The connection that was there is dropped.
    pub fn checkin(&mut self, key: &ConnectionKey, connection: C)
        ensures
            final(self)@ == with(old(self)@, key.server_id, key.database_name@, connection),
    {
        proof {
            use_type_invariant(&*self);
        }
        let mut servers: Vec<Server<C>> = Vec::new();
        std::mem::swap(&mut self.servers, &mut servers);
        let mut server = match find_id(&servers, key.server_id) {
            None => Server { server_id: key.server_id, entries: Vec::new() },
            Some(s) => {
                proof {
                    lemma_id_found(servers@, s as int);
                    lemma_id_removed(servers@, s as int);
                }
                servers.remove(s)
            },
        };
        let ghost before = if old(self)@.dom().contains(key.server_id) {
            old(self)@[key.server_id]
        } else {
            Map::empty()
        };
        assert(by_name(server.entries@) =~= before);
        match find_name(&server.entries, key.database_name.as_str()) {
            None => {},
            Some(e) => {
                proof {
                    lemma_name_found(server.entries@, e as int);
                    lemma_name_removed(server.entries@, e as int);
                }
                let _ = server.entries.remove(e);
            },
        }
        let entry = Entry { database: key.database_name.clone(), connection };
        proof {
            lemma_name_pushed(server.entries@, entry);
        }
        server.entries.push(entry);
        proof {
            assert(by_name(server.entries@) =~= before.insert(key.database_name@, connection));
            lemma_id_pushed(servers@, server);
        }
        servers.push(server);
        assert(by_id(servers@) =~= with(
            old(self)@,
            key.server_id,
            key.database_name@,
            connection,
        ));
        self.servers = servers;
    }

    /// Stores a connection for the key only if none is cached for it. Where
    /// one is cached, the registry stays as it is and the new connection is
    /// dropped. Says whether the connection was stored.
    pub fn insert_if_absent(&mut self, key: &ConnectionKey, connection: C) -> (stored: bool)
        ensures
            stored == cached(old(self)@, key.server_id, key.database_name@).is_none(),
            final(self)@ == with_if_absent(
                old(self)@,
                key.server_id,
                key.database_name@,
                connection,
            ),
    {
        if self.contains(key) {
            false
        } else {
            self.checkin(key, connection);
            true
        }
    }

    /// Evicts the connection cached for the key and drops it. Says whether
    /// there was one.
    pub fn remove(&mut self, key: &ConnectionKey) -> (evicted: bool)
        ensures
            evicted == cached(old(self)@, key.server_id, key.database_name@).is_some(),
            final(self)@ == without(old(self)@, key.server_id, key.database_name@),
            !evicted ==> final(self)@ == old(self)@,
    {
        self.checkout(key).is_some()
    }

    /// Evicts every connection cached for the server and drops them, together
    /// with the server's entry. Says whether the server had an entry.
    pub fn remove_all(&mut self, server_id: i32) -> (known: bool)
        ensures
            known == old(self)@.dom().contains(server_id),
            final(self)@ == old(self)@.remove(server_id),
    {
        proof {
            use_type_invariant(&*self);
        }
        let mut servers: Vec<Server<C>> = Vec::new();
        std::mem::swap(&mut self.servers, &mut servers);
        let known = match find_id(&servers, server_id) {
            None => {
                assert(by_id(servers@) =~= by_id(servers@).remove(server_id));
                false
            },
            Some(s) => {
                proof {
                    lemma_id_found(servers@, s as int);
                    lemma_id_removed(servers@, s as int);
                }
                let _ = servers.remove(s);
                true
            },
        };
        self.servers = servers;
        known
    }
}

/// A disconnect named a server that has no entry in the registry.
#[derive(Clone, Copy, Debug, PartialEq, Eq, Structural)]
pub struct NotConnected {
    pub server_id: i32,
}

impl NotConnected {
    /// Words the refusal for the caller.
    pub fn message(&self) -> (text: String)
        ensures
            text@ == "Nenhuma conexão para server_id "@ + decimal(self.server_id as int),
    {
        let mut text = "Nenhuma conexão para server_id ".to_owned();
        text.append(decimal_text(self.server_id as i64).as_str());
        text
    }
}

/// Closes one connection of a server, or all of them. With a database name
/// the connection cached under that name is evicted, if there is one; without
/// a name the server's whole entry goes. A server that has no entry is an
/// error, and the registry is then unchanged.
pub fn disconnect<C>(
    registry: &mut Registry<C>,
    server_id: i32,
    db_name: Option<String>,
) -> (done: Result<(), NotConnected>)
    ensures
        old(registry)@.dom().contains(server_id) ==> done.is_ok(),
        !old(registry)@.dom().contains(server_id) ==> done == Err::<(), NotConnected>(
            (NotConnected { server_id }),
        ),
        final(registry)@ == disconnected(old(registry)@, server_id, db_name),
{
    if !registry.knows_server(server_id) {
        assert(registry@.remove(server_id) =~= registry@);
        return Err(NotConnected { server_id });
    }
    match db_name {
        Some(name) => {
            let key = ConnectionKey { server_id, database_name: name };
            let _ = registry.remove(&key);
        },
        None => {
            let _ = registry.remove_all(server_id);
        },
    }
    Ok(())
}

/// A registry that has cached nothing yet has no connection for any key.
pub proof fn nothing_cached_at_first<C>(server_id: i32, database: Seq<char>)
    ensures
        cached(Map::<i32, Map<Seq<char>, C>>::empty(), server_id, database).is_none(),
{
}

/// Taking out the connection of a key that has none leaves the cache as it
/// was.
pub proof fn taking_nothing_changes_nothing<C>(
    cache: Cache<C>,
    server_id: i32,
    database: Seq<char>,
)
    requires
        cached(cache, server_id, database).is_none(),
    ensures
        without(cache, server_id, database) == cache,
{
    if cache.dom().contains(server_id) {
        assert(cache[server_id].remove(database) =~= cache[server_id]);
    }
    assert(without(cache, server_id, database) =~= cache);
}

/// While the connection of a key is checked out, the key has nothing.
pub proof fn taken_then_absent<C>(cache: Cache<C>, server_id: i32, database: Seq<char>)
    ensures
        cached(without(cache, server_id, database), server_id, database).is_none(),
{
}

/// Right after a connection is stored for a key, that connection is what the
/// key gives, and taking it out leaves the key with nothing.
pub proof fn stored_then_found<C>(
    cache: Cache<C>,
    server_id: i32,
    database: Seq<char>,
    connection: C,
)
    ensures
        cached(with(cache, server_id, database, connection), server_id, database) == Some(
            connection,
        ),
        cached(
            without(with(cache, server_id, database, connection), server_id, database),
            server_id,
            database,
        ).is_none(),
{
}

/// Storing or taking out the connection of one key leaves what is cached for
/// every other key as it was.
pub proof fn other_keys_untouched<C>(
    cache: Cache<C>,
    server_id: i32,
    database: Seq<char>,
    connection: C,
    other_server: i32,
    other_database: Seq<char>,
)
    requires
        other_server != server_id || other_database != database,
    ensures
        cached(with(cache, server_id, database, connection), other_server, other_database)
            == cached(cache, other_server, other_database),
        cached(without(cache, server_id, database), other_server, other_database) == cached(
            cache,
            other_server,
            other_database,
        ),
{
}

/// Once every connection of a server has been removed, no key of that server
/// has a connection, and every other server's connections are as they were.
pub proof fn nothing_left_for_server<C>(
    cache: Cache<C>,
    server_id: i32,
    database: Seq<char>,
    other_server: i32,
)
    requires
        other_server != server_id,
    ensures
        cached(cache.remove(server_id), server_id, database).is_none(),
        cached(cache.remove(server_id), other_server, database) == cached(
            cache,
            other_server,
            database,
        ),
{
}

} // verus!
