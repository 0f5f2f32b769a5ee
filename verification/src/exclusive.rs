//! Exclusive use of a key's connection, shown on a model of many executions
//! that take their steps in any order over one registry.
//!
//! The model is the registry's content together with the states of the
//! executions, by number. A step of the model is a step of one execution.
//! The property is that at most one execution is running a statement on a
//! key's connection, and that no connection is cached for a key while one
//! is.
//!
//! The protocol keeps the property as long as no handshake for a key
//! completes while that key's connection is checked out. It does not rule
//! this out: an execution that finds the key absent, because another has its
//! connection checked out, starts a handshake of its own. Such a step is
//! left out of the first part, and nowhere else.
//!
//! The second part follows the connections themselves and leaves no step
//! out. Whatever the order of the steps, a connection is in one place only:
//! cached under one key, or in the hands of one execution. It asks of the
//! caller what the protocol asks: that a handshake yields a connection that
//! is nowhere yet, and that `Ran` hands back the connection that `Run` gave.
//!
//! Both parts also cover what else changes the registry: a connection that
//! is ensured without a statement to run, and evictions.

use crate::pipeline::{
    connect_step, query_step, ConnectAction, ConnectEvent, ConnectStage, ConnectState,
    QueryAction, QueryEvent, QueryStage, QueryState,
};
use crate::registry::{cached, with, without, Cache};
use vstd::prelude::*;

verus! {

/// The key whose connection an execution has checked out, if it has one.
pub open spec fn held_key(state: QueryState) -> Option<(i32, Seq<char>)> {
    match state.stage {
        QueryStage::Executing { key } => Some((key.server_id, key.database_name@)),
        _ => None,
    }
}

/// Whether some execution has the connection of the key checked out.
pub open spec fn checked_out(
    executions: Map<nat, QueryState>,
    server_id: i32,
    database: Seq<char>,
) -> bool {
    exists|other: nat|
        executions.dom().contains(other) && held_key(#[trigger] executions[other]) == Some(
            (server_id, database),
        )
}

/// Whether nothing is cached for a key that is checked out.
pub open spec fn uncached<C>(cache: Cache<C>, held: Option<(i32, Seq<char>)>) -> bool {
    match held {
        Some(key) => cached(cache, key.0, key.1).is_none(),
        None => true,
    }
}

/// No key's connection is checked out by two executions, and none is cached
/// while it is checked out.
pub open spec fn exclusive<C>(cache: Cache<C>, executions: Map<nat, QueryState>) -> bool {
    &&& forall|a: nat, b: nat|
        executions.dom().contains(a) && executions.dom().contains(b) && a != b && held_key(
            #[trigger] executions[a],
        ).is_some() ==> held_key(executions[a]) != held_key(#[trigger] executions[b])
    &&& forall|a: nat|
        executions.dom().contains(a) ==> uncached(cache, held_key(#[trigger] executions[a]))
}

/// Whether a stage of ensuring a connection is waiting for a handshake for a
/// key that some execution has checked out.
pub open spec fn connecting_to_checked_out(
    executions: Map<nat, QueryState>,
    stage: ConnectStage,
) -> bool {
    stage matches ConnectStage::Connecting { key } && checked_out(
        executions,
        key.server_id,
        key.database_name@,
    )
}

/// The step that is left out: a handshake that succeeds for a key while some
/// execution has that key's connection checked out.
pub open spec fn untimely_handshake<C>(
    executions: Map<nat, QueryState>,
    state: QueryState,
    event: QueryEvent<C>,
) -> bool {
    &&& event matches QueryEvent::Connected(Ok(_))
    &&& state.stage matches QueryStage::Ensuring(inner)
    &&& connecting_to_checked_out(executions, inner.stage)
}

/// With no execution under way, nothing is checked out, whatever is cached.
pub proof fn exclusive_at_first<C>(cache: Cache<C>)
    ensures
        exclusive(cache, Map::<nat, QueryState>::empty()),
{
}

/// An execution that begins, or any that has nothing checked out, can join
/// the others without harm.
pub proof fn joining_keeps_exclusive<C>(
    cache: Cache<C>,
    executions: Map<nat, QueryState>,
    who: nat,
    state: QueryState,
)
    requires
        exclusive(cache, executions),
        held_key(state).is_none(),
    ensures
        exclusive(cache, executions.insert(who, state)),
{
    let grown = executions.insert(who, state);
    assert forall|a: nat, b: nat|
        grown.dom().contains(a) && grown.dom().contains(b) && a != b && held_key(
            #[trigger] grown[a],
        ).is_some() implies held_key(grown[a]) != held_key(#[trigger] grown[b]) by {
        assert(a != who);
        assert(grown[a] == executions[a]);
        if b != who {
            assert(grown[b] == executions[b]);
        }
    }
    assert forall|a: nat| grown.dom().contains(a) implies uncached(
        cache,
        held_key(#[trigger] grown[a]),
    ) by {
        if a != who {
            assert(grown[a] == executions[a]);
        }
    }
}

/// Every step of an execution, but for an untimely handshake, keeps the use
/// of every key's connection exclusive.
pub proof fn step_keeps_exclusive<C>(
    before: Cache<C>,
    executions: Map<nat, QueryState>,
    who: nat,
    event: QueryEvent<C>,
    after: Cache<C>,
    next: QueryState,
    action: QueryAction<C>,
)
    requires
        exclusive(before, executions),
        executions.dom().contains(who),
        query_step(before, executions[who], event, after, next, action),
        !untimely_handshake(executions, executions[who], event),
    ensures
        exclusive(after, executions.insert(who, next)),
{
    let state = executions[who];
    let moved = executions.insert(who, next);
    match state.stage {
        QueryStage::Ensuring(inner) => {
            match (inner.stage, event) {
                (ConnectStage::Connecting { key }, QueryEvent::Connected(Ok(_))) => {
                    assert(!checked_out(executions, key.server_id, key.database_name@));
                },
                _ => {},
            }
            joining_frame(before, after, executions, who, next);
        },
        QueryStage::Ensured { key } => {
            if event is Proceed && cached(before, key.server_id, key.database_name@).is_some() {
                assert forall|a: nat| moved.dom().contains(a) implies uncached(
                    after,
                    held_key(#[trigger] moved[a]),
                ) by {
                    if a != who {
                        assert(moved[a] == executions[a]);
                    }
                }
                assert forall|a: nat, b: nat|
                    moved.dom().contains(a) && moved.dom().contains(b) && a != b && held_key(
                        #[trigger] moved[a],
                    ).is_some() implies held_key(moved[a]) != held_key(#[trigger] moved[b]) by {
                    if a != who {
                        assert(moved[a] == executions[a]);
                    }
                    if b != who {
                        assert(moved[b] == executions[b]);
                    }
                }
            } else {
                joining_frame(before, after, executions, who, next);
            }
        },
        QueryStage::Executing { key } => {
            assert forall|a: nat| executions.dom().contains(a) && a != who implies uncached(
                after,
                held_key(#[trigger] executions[a]),
            ) by {
                assert(held_key(executions[a]) != held_key(executions[who]));
            }
            joining_frame(before, after, executions, who, next);
        },
        _ => {
            joining_frame(before, after, executions, who, next);
        },
    }
}

proof fn joining_frame<C>(
    before: Cache<C>,
    after: Cache<C>,
    executions: Map<nat, QueryState>,
    who: nat,
    next: QueryState,
)
    requires
        exclusive(before, executions),
        executions.dom().contains(who),
        held_key(next).is_none(),
        forall|a: nat|
            executions.dom().contains(a) && a != who ==> uncached(
                after,
                held_key(#[trigger] executions[a]),
            ),
    ensures
        exclusive(after, executions.insert(who, next)),
{
    let moved = executions.insert(who, next);
    assert forall|a: nat, b: nat|
        moved.dom().contains(a) && moved.dom().contains(b) && a != b && held_key(
            #[trigger] moved[a],
        ).is_some() implies held_key(moved[a]) != held_key(#[trigger] moved[b]) by {
        assert(a != who);
        assert(moved[a] == executions[a]);
        if b != who {
            assert(moved[b] == executions[b]);
        }
    }
    assert forall|a: nat| moved.dom().contains(a) implies uncached(
        after,
        held_key(#[trigger] moved[a]),
    ) by {
        if a != who {
            assert(moved[a] == executions[a]);
        }
    }
}

/// Every step of ensuring a connection on its own, but for a handshake that
/// succeeds for a key that is checked out, keeps the use of every key's
/// connection exclusive.
pub proof fn ensuring_keeps_exclusive<C>(
    before: Cache<C>,
    executions: Map<nat, QueryState>,
    state: ConnectState,
    event: ConnectEvent<C>,
    after: Cache<C>,
    next: ConnectState,
    action: ConnectAction,
)
    requires
        exclusive(before, executions),
        connect_step(before, state, event, after, next, action),
        !(event matches ConnectEvent::Connected(Ok(_)) && connecting_to_checked_out(
            executions,
            state.stage,
        )),
    ensures
        exclusive(after, executions),
{
    assert forall|a: nat| executions.dom().contains(a) implies uncached(
        after,
        held_key(#[trigger] executions[a]),
    ) by {
        match (state.stage, event) {
            (ConnectStage::Connecting { key }, ConnectEvent::Connected(Ok(connection))) => {
                assert(!checked_out(executions, key.server_id, key.database_name@));
                if held_key(executions[a]).is_some() {
                    let held = held_key(executions[a])->Some_0;
                    assert(held != (key.server_id, key.database_name@));
                }
            },
            _ => {},
        }
    }
}

/// Whether a cache holds nothing that another did not hold under the same
/// key. This is how a cache stands to the one before an eviction.
pub open spec fn holds_no_more<C>(after: Cache<C>, before: Cache<C>) -> bool {
    forall|server_id: i32, database: Seq<char>|
        (#[trigger] cached(after, server_id, database)).is_some() ==> cached(
            after,
            server_id,
            database,
        ) == cached(before, server_id, database)
}

/// Evicting connections, one or all of a server, at any moment keeps the use
/// of every key's connection exclusive.
pub proof fn eviction_keeps_exclusive<C>(
    before: Cache<C>,
    after: Cache<C>,
    executions: Map<nat, QueryState>,
)
    requires
        exclusive(before, executions),
        holds_no_more(after, before),
    ensures
        exclusive(after, executions),
{
    assert forall|a: nat| executions.dom().contains(a) implies uncached(
        after,
        held_key(#[trigger] executions[a]),
    ) by {
        match held_key(executions[a]) {
            Some(key) => {
                if cached(after, key.0, key.1).is_some() {
                    assert(cached(after, key.0, key.1) == cached(before, key.0, key.1));
                }
            },
            None => {},
        }
    }
}

/// The handles in the hands of the executions after a step: the execution
/// that was told to run a statement has the handle it was given, and one
/// that was told anything else has none.
pub open spec fn hands_after<C>(hands: Map<nat, C>, who: nat, action: QueryAction<C>) -> Map<
    nat,
    C,
> {
    match action {
        QueryAction::Run { connection, sql } => hands.insert(who, connection),
        _ => hands.remove(who),
    }
}

/// Every connection is in one place: an execution has a handle exactly while
/// it runs a statement, no two executions have the same handle, no handle in
/// an execution's hands is cached, and none is cached under two keys.
pub open spec fn apart<C>(cache: Cache<C>, executions: Map<nat, QueryState>, hands: Map<nat, C>)
    -> bool {
    &&& forall|a: nat|
        hands.dom().contains(a) <==> executions.dom().contains(a) && held_key(
            #[trigger] executions[a],
        ).is_some()
    &&& forall|a: nat, b: nat|
        hands.dom().contains(a) && hands.dom().contains(b) && a != b ==> #[trigger] hands[a]
            != #[trigger] hands[b]
    &&& forall|a: nat, server_id: i32, database: Seq<char>|
        hands.dom().contains(a) ==> #[trigger] cached(cache, server_id, database) != Some(
            #[trigger] hands[a],
        )
    &&& forall|s1: i32, d1: Seq<char>, s2: i32, d2: Seq<char>|
        (s1 != s2 || d1 != d2) && (#[trigger] cached(cache, s1, d1)).is_some() ==> cached(
            cache,
            s1,
            d1,
        ) != #[trigger] cached(cache, s2, d2)
}

/// Whether a connection is neither cached nor in any execution's hands.
pub open spec fn nowhere_yet<C>(cache: Cache<C>, hands: Map<nat, C>, connection: C) -> bool {
    &&& forall|a: nat| hands.dom().contains(a) ==> #[trigger] hands[a] != connection
    &&& forall|server_id: i32, database: Seq<char>| #[trigger]
        cached(cache, server_id, database) != Some(connection)
}

/// What the protocol asks of the caller's events: a connection that a
/// handshake yields is nowhere yet, and the connection reported with `Ran`
/// is the one the execution was given.
pub open spec fn honest<C>(cache: Cache<C>, hands: Map<nat, C>, who: nat, event: QueryEvent<C>)
    -> bool {
    match event {
        QueryEvent::Connected(Ok(connection)) => nowhere_yet(cache, hands, connection),
        QueryEvent::Ran { connection: Some(connection), outcome } => hands.dom().contains(who)
            ==> hands[who] == connection,
        _ => true,
    }
}

/// With nothing cached and no execution under way, every connection is in
/// one place.
pub proof fn apart_at_first<C>()
    ensures
        apart(
            Map::<i32, Map<Seq<char>, C>>::empty(),
            Map::<nat, QueryState>::empty(),
            Map::<nat, C>::empty(),
        ),
{
}

/// An execution that has nothing checked out can join the others and leaves
/// every connection where it is.
pub proof fn joining_keeps_apart<C>(
    cache: Cache<C>,
    executions: Map<nat, QueryState>,
    hands: Map<nat, C>,
    who: nat,
    state: QueryState,
)
    requires
        apart(cache, executions, hands),
        !executions.dom().contains(who),
        held_key(state).is_none(),
    ensures
        apart(cache, executions.insert(who, state), hands),
{
    let grown = executions.insert(who, state);
    assert forall|a: nat|
        hands.dom().contains(a) <==> grown.dom().contains(a) && held_key(
            #[trigger] grown[a],
        ).is_some() by {
        if executions.dom().contains(a) {
            assert(grown[a] == executions[a]);
        } else {
            assert(!hands.dom().contains(a)) by {
                assert(held_key(executions[a]).is_some() || !hands.dom().contains(a));
            }
        }
    }
}

/// Evicting connections, one or all of a server, at any moment leaves every
/// other connection in its one place.
pub proof fn eviction_keeps_apart<C>(
    before: Cache<C>,
    after: Cache<C>,
    executions: Map<nat, QueryState>,
    hands: Map<nat, C>,
)
    requires
        apart(before, executions, hands),
        holds_no_more(after, before),
    ensures
        apart(after, executions, hands),
{
    assert forall|a: nat, server_id: i32, database: Seq<char>|
        hands.dom().contains(a) implies #[trigger] cached(after, server_id, database) != Some(
        #[trigger] hands[a],
    ) by {
        if cached(after, server_id, database).is_some() {
            assert(cached(before, server_id, database) != Some(hands[a]));
        }
    }
    assert forall|s1: i32, d1: Seq<char>, s2: i32, d2: Seq<char>|
        (s1 != s2 || d1 != d2) && (#[trigger] cached(after, s1, d1)).is_some() implies cached(
        after,
        s1,
        d1,
    ) != #[trigger] cached(after, s2, d2) by {
        assert(cached(after, s1, d1) == cached(before, s1, d1));
        if cached(after, s2, d2).is_some() {
            assert(cached(after, s2, d2) == cached(before, s2, d2));
            assert(cached(before, s1, d1) != cached(before, s2, d2));
        }
    }
}

/// Taking one connection out of a cache, or all of a server's, leaves a cache
/// that holds no more than before.
pub proof fn eviction_holds_no_more<C>(cache: Cache<C>, server_id: i32, database: Seq<char>)
    ensures
        holds_no_more(without(cache, server_id, database), cache),
        holds_no_more(cache.remove(server_id), cache),
{
}

/// Every step of an execution keeps every connection in one place.
pub proof fn step_keeps_apart<C>(
    before: Cache<C>,
    executions: Map<nat, QueryState>,
    hands: Map<nat, C>,
    who: nat,
    event: QueryEvent<C>,
    after: Cache<C>,
    next: QueryState,
    action: QueryAction<C>,
)
    requires
        apart(before, executions, hands),
        executions.dom().contains(who),
        query_step(before, executions[who], event, after, next, action),
        honest(before, hands, who, event),
    ensures
        apart(after, executions.insert(who, next), hands_after(hands, who, action)),
{
    let state = executions[who];
    let moved = executions.insert(who, next);
    let held = hands_after(hands, who, action);
    match state.stage {
        QueryStage::Ensuring(inner) => {
            assert(held =~= hands);
            match (inner.stage, event) {
                (ConnectStage::Connecting { key }, QueryEvent::Connected(Ok(connection))) => {
                    lemma_stored_apart(before, key.server_id, key.database_name@, connection);
                },
                _ => {},
            }
            lemma_rest_apart(before, after, executions, hands, who, next);
        },
        QueryStage::Ensured { key } => {
            match event {
                QueryEvent::Proceed => {
                    match cached(before, key.server_id, key.database_name@) {
                        Some(connection) => {
                            lemma_taken_apart(before, key.server_id, key.database_name@);
                            assert forall|a: nat|
                                held.dom().contains(a) <==> moved.dom().contains(a) && held_key(
                                    #[trigger] moved[a],
                                ).is_some() by {
                                if a != who {
                                    assert(moved[a] == executions[a]);
                                }
                            }
                            assert forall|a: nat, b: nat|
                                held.dom().contains(a) && held.dom().contains(b) && a
                                    != b implies #[trigger] held[a] != #[trigger] held[b] by {
                                if a == who {
                                    assert(cached(before, key.server_id, key.database_name@)
                                        != Some(hands[b]));
                                } else if b == who {
                                    assert(cached(before, key.server_id, key.database_name@)
                                        != Some(hands[a]));
                                }
                            }
                            assert forall|a: nat, server_id: i32, database: Seq<char>|
                                held.dom().contains(a) implies #[trigger] cached(
                                after,
                                server_id,
                                database,
                            ) != Some(#[trigger] held[a]) by {
                                if cached(after, server_id, database).is_some() {
                                    assert(cached(after, server_id, database) == cached(
                                        before,
                                        server_id,
                                        database,
                                    ));
                                    assert(server_id != key.server_id || database
                                        != key.database_name@);
                                    if a == who {
                                        assert(cached(before, key.server_id, key.database_name@)
                                            != cached(before, server_id, database));
                                    } else {
                                        assert(cached(before, server_id, database) != Some(
                                            hands[a],
                                        ));
                                    }
                                }
                            }
                        },
                        None => {
                            assert(held =~= hands);
                            lemma_rest_apart(before, after, executions, hands, who, next);
                        },
                    }
                },
                _ => {
                    assert(held =~= hands);
                    lemma_rest_apart(before, after, executions, hands, who, next);
                },
            }
        },
        QueryStage::Executing { key } => {
            assert(held == hands.remove(who));
            match event {
                QueryEvent::Ran { connection: Some(connection), outcome } => {
                    lemma_stored_apart(before, key.server_id, key.database_name@, connection);
                    assert forall|a: nat, server_id: i32, database: Seq<char>|
                        held.dom().contains(a) implies #[trigger] cached(
                        after,
                        server_id,
                        database,
                    ) != Some(#[trigger] held[a]) by {
                        assert(hands[a] != hands[who]);
                        assert(cached(before, server_id, database) != Some(hands[a]));
                    }
                },
                _ => {},
            }
            assert forall|a: nat|
                held.dom().contains(a) <==> moved.dom().contains(a) && held_key(
                    #[trigger] moved[a],
                ).is_some() by {
                if a != who {
                    assert(moved[a] == executions[a]);
                }
            }
        },
        _ => {
            assert(held =~= hands);
            lemma_rest_apart(before, after, executions, hands, who, next);
        },
    }
}

/// Every step of ensuring a connection on its own keeps every connection
/// in one place, where the connection that a handshake yields is nowhere
/// yet.
pub proof fn ensuring_keeps_apart<C>(
    before: Cache<C>,
    executions: Map<nat, QueryState>,
    hands: Map<nat, C>,
    state: ConnectState,
    event: ConnectEvent<C>,
    after: Cache<C>,
    next: ConnectState,
    action: ConnectAction,
)
    requires
        apart(before, executions, hands),
        connect_step(before, state, event, after, next, action),
        event matches ConnectEvent::Connected(Ok(connection)) ==> nowhere_yet(
            before,
            hands,
            connection,
        ),
    ensures
        apart(after, executions, hands),
{
    match (state.stage, event) {
        (ConnectStage::Connecting { key }, ConnectEvent::Connected(Ok(connection))) => {
            lemma_stored_apart(before, key.server_id, key.database_name@, connection);
        },
        _ => {},
    }
}

proof fn lemma_stored_apart<C>(cache: Cache<C>, server_id: i32, database: Seq<char>, connection: C)
    requires
        forall|s: i32, d: Seq<char>| #[trigger] cached(cache, s, d) != Some(connection),
        forall|s1: i32, d1: Seq<char>, s2: i32, d2: Seq<char>|
            (s1 != s2 || d1 != d2) && (#[trigger] cached(cache, s1, d1)).is_some() ==> cached(
                cache,
                s1,
                d1,
            ) != #[trigger] cached(cache, s2, d2),
    ensures
        cached(with(cache, server_id, database, connection), server_id, database) == Some(
            connection,
        ),
        forall|s: i32, d: Seq<char>|
            s != server_id || d != database ==> #[trigger] cached(
                with(cache, server_id, database, connection),
                s,
                d,
            ) == cached(cache, s, d),
        forall|s1: i32, d1: Seq<char>, s2: i32, d2: Seq<char>|
            (s1 != s2 || d1 != d2) && (#[trigger] cached(
                with(cache, server_id, database, connection),
                s1,
                d1,
            )).is_some() ==> cached(
                with(cache, server_id, database, connection),
                s1,
                d1,
            ) != #[trigger] cached(
                with(cache, server_id, database, connection),
                s2,
                d2,
            ),
{
    let stored = with(cache, server_id, database, connection);
    assert forall|s1: i32, d1: Seq<char>, s2: i32, d2: Seq<char>|
        (s1 != s2 || d1 != d2) && (#[trigger] cached(stored, s1, d1)).is_some() implies cached(
        stored,
        s1,
        d1,
    ) != #[trigger] cached(stored, s2, d2) by {
        assert(cached(cache, s1, d1) != Some(connection));
        assert(cached(cache, s2, d2) != Some(connection));
        if !(s1 == server_id && d1 == database) && !(s2 == server_id && d2 == database) {
            assert(cached(cache, s1, d1).is_some());
            assert(cached(cache, s1, d1) != cached(cache, s2, d2));
        }
    }
}

proof fn lemma_taken_apart<C>(cache: Cache<C>, server_id: i32, database: Seq<char>)
    ensures
        cached(without(cache, server_id, database), server_id, database).is_none(),
        forall|s: i32, d: Seq<char>|
            s != server_id || d != database ==> #[trigger] cached(
                without(cache, server_id, database),
                s,
                d,
            ) == cached(cache, s, d),
{
}

proof fn lemma_rest_apart<C>(
    before: Cache<C>,
    after: Cache<C>,
    executions: Map<nat, QueryState>,
    hands: Map<nat, C>,
    who: nat,
    next: QueryState,
)
    requires
        apart(before, executions, hands),
        executions.dom().contains(who),
        !hands.dom().contains(who),
        held_key(next).is_none(),
        forall|a: nat, server_id: i32, database: Seq<char>|
            hands.dom().contains(a) ==> #[trigger] cached(after, server_id, database) != Some(
                #[trigger] hands[a],
            ),
        forall|s1: i32, d1: Seq<char>, s2: i32, d2: Seq<char>|
            (s1 != s2 || d1 != d2) && (#[trigger] cached(after, s1, d1)).is_some() ==> cached(
                after,
                s1,
                d1,
            ) != #[trigger] cached(after, s2, d2),
    ensures
        apart(after, executions.insert(who, next), hands),
{
    let moved = executions.insert(who, next);
    assert forall|a: nat|
        hands.dom().contains(a) <==> moved.dom().contains(a) && held_key(
            #[trigger] moved[a],
        ).is_some() by {
        if a != who {
            assert(moved[a] == executions[a]);
        }
    }
}

} // verus!
