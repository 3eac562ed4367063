//! What the calls do that walk through a child trie: `migrate_pending` and `refund`.
use sp_runtime::DispatchError;
use vstd::prelude::*;

use crate::bytes::{precedes, precedes_total};
use crate::config::Config;
use crate::effects::payouts::{count_of, given_back, less_of};
use crate::effects::plain::{
    amount_in, bid_key, bids, blank_report, code_in, is_empty, may, message,
};
use crate::laws::walk_goes_on;
use crate::state::{child_id, State, World};
use crate::tally::{collision_free, entry_at_most_total};
use crate::types::{
    AccountId, ArithmeticError, Balance, CallError, ChildStorageKind, Contribution,
    ContributionKey, ContributionStrategy, Error, Event, LeasePeriod, Origin, ParaId, QueryId,
    RequiredOrigin, Vault, VaultPhase, XcmRequest,
};
use crate::upkeep::in_order;

verus! {

/// The steps of a walk: the accounts that it came to, and the runtime before the first of
/// them and after each.
pub struct Walk<T> {
    pub visited: Seq<AccountId>,
    pub steps: Seq<T>,
}

/// The accounts are the first in a child trie, in the order of their bytes: all that there
/// are, or as many as the limit.
pub open spec fn first_in(
    m: Map<ContributionKey<Seq<u8>>, Contribution<Seq<u8>>>,
    child: Seq<u8>,
    visited: Seq<AccountId>,
    limit: int,
) -> bool {
    &&& visited.len() <= limit
    &&& forall|i: int|
        #![trigger visited[i]]
        0 <= i < visited.len() ==> m.contains_key(ContributionKey { child, who: visited[i] })
    &&& forall|i: int, j: int|
        #![trigger visited[i], visited[j]]
        0 <= i < j < visited.len() ==> precedes(visited[i]@, visited[j]@)
    &&& forall|who: AccountId| #[trigger]
        m.contains_key(ContributionKey { child, who }) && !visited.contains(who) ==> {
            &&& visited.len() == limit
            &&& forall|i: int|
                #![trigger visited[i]]
                0 <= i < visited.len() ==> precedes(visited[i]@, who@)
        }
}

/// What the accounts have in a child trie together.
pub open spec fn sum_in(
    m: Map<ContributionKey<Seq<u8>>, Contribution<Seq<u8>>>,
    child: Seq<u8>,
    visited: Seq<AccountId>,
) -> int
    decreases visited.len(),
{
    if visited.len() == 0 {
        0
    } else {
        amount_in(m, child, visited[0]) + sum_in(m, child, visited.drop_first())
    }
}

/// A walk that goes on from the first account has come to the first accounts.
proof fn first_and_then(
    before: Map<ContributionKey<Seq<u8>>, Contribution<Seq<u8>>>,
    after: Map<ContributionKey<Seq<u8>>, Contribution<Seq<u8>>>,
    child: Seq<u8>,
    who: AccountId,
    rest: Seq<AccountId>,
    limit: int,
)
    requires
        before.contains_key(ContributionKey { child, who }),
        !after.contains_key(ContributionKey { child, who }),
        forall|w: AccountId|
            w != who ==> (#[trigger] after.contains_key(ContributionKey { child, who: w })
                <==> before.contains_key(ContributionKey { child, who: w })),
        forall|w: AccountId| #[trigger]
            after.contains_key(ContributionKey { child, who: w }) ==> precedes(who@, w@),
        first_in(after, child, rest, limit),
    ensures
        first_in(before, child, seq![who] + rest, limit + 1),
        !rest.contains(who),
{
    let visited = seq![who] + rest;
    assert(visited[0] == who);
    assert forall|i: int| 1 <= i < visited.len() implies #[trigger] visited[i] == rest[i - 1] by {}
    assert forall|i: int|
        #![trigger visited[i]]
        0 <= i < visited.len() implies before.contains_key(
        ContributionKey { child, who: visited[i] },
    ) by {
        if i > 0 {
            assert(after.contains_key(ContributionKey { child, who: rest[i - 1] }));
        }
    }
    assert forall|i: int, j: int|
        #![trigger visited[i], visited[j]]
        0 <= i < j < visited.len() implies precedes(visited[i]@, visited[j]@) by {
        assert(after.contains_key(ContributionKey { child, who: rest[j - 1] }));
        if i > 0 {
            assert(precedes(rest[i - 1]@, rest[j - 1]@));
        }
    }
    assert forall|w: AccountId| #[trigger]
        before.contains_key(ContributionKey { child, who: w }) && !visited.contains(w) implies {
        &&& visited.len() == limit + 1
        &&& forall|i: int|
            #![trigger visited[i]]
            0 <= i < visited.len() ==> precedes(visited[i]@, w@)
    } by {
        assert(visited.contains(visited[0]));
        assert(after.contains_key(ContributionKey { child, who: w }));
        if rest.contains(w) {
            let i = choose|i: int| 0 <= i < rest.len() && rest[i] == w;
            assert(visited[i + 1] == w);
        }
        assert forall|i: int| #![trigger visited[i]] 0 <= i < visited.len() implies precedes(
            visited[i]@,
            w@,
        ) by {
            if i > 0 {
                assert(precedes(rest[i - 1]@, w@));
            }
        }
    }
    if rest.contains(who) {
        let i = choose|i: int| 0 <= i < rest.len() && rest[i] == who;
        assert(after.contains_key(ContributionKey { child, who: rest[i] }));
    }
}

/// Accounts whose entries are the same have the same together.
proof fn same_sum(
    a: Map<ContributionKey<Seq<u8>>, Contribution<Seq<u8>>>,
    b: Map<ContributionKey<Seq<u8>>, Contribution<Seq<u8>>>,
    child: Seq<u8>,
    visited: Seq<AccountId>,
)
    requires
        forall|i: int|
            #![trigger visited[i]]
            0 <= i < visited.len() ==> amount_in(a, child, visited[i]) == amount_in(
                b,
                child,
                visited[i],
            ),
    ensures
        sum_in(a, child, visited) == sum_in(b, child, visited),
    decreases visited.len(),
{
    if visited.len() > 0 {
        let rest = visited.drop_first();
        assert forall|i: int| #![trigger rest[i]] 0 <= i < rest.len() implies amount_in(
            a,
            child,
            rest[i],
        ) == amount_in(b, child, rest[i]) by {
            assert(rest[i] == visited[i + 1]);
        }
        same_sum(a, b, child, rest);
    }
}

/// No entry of a child trie is at or before the cursor.
spec fn all_behind(state: State, child: Seq<u8>, cursor: Option<AccountId>) -> bool {
    forall|who: AccountId| #[trigger]
        state.contributions.contains_key(ContributionKey { child, who }) ==> state.is_behind(
            child,
            cursor,
            who,
        )
}

/// Where the entry that a walk comes to is taken out, the others are behind it.
proof fn others_are_behind(
    before: State,
    after: State,
    child: Seq<u8>,
    cursor: Option<AccountId>,
    who: AccountId,
)
    requires
        all_behind(before, child, cursor),
        before.is_next(child, cursor, who),
        !after.contributions.contains_key(ContributionKey { child, who }),
        forall|w: AccountId| #[trigger]
            after.contributions.contains_key(ContributionKey { child, who: w })
                ==> before.contributions.contains_key(ContributionKey { child, who: w }),
    ensures
        all_behind(after, child, Some(who)),
        forall|w: AccountId| #[trigger]
            after.contributions.contains_key(ContributionKey { child, who: w }) ==> precedes(
                who@,
                w@,
            ),
{
    assert forall|w: AccountId| #[trigger]
        after.contributions.contains_key(ContributionKey { child, who: w }) implies after.is_behind(
        child,
        Some(who),
        w,
    ) && precedes(who@, w@) by {
        assert(before.is_behind(child, cursor, w));
        precedes_total(w@, who@);
        if w@ == who@ {
            assert(w =~= who);
        }
    }
}

// ---- Migrating ----

/// Each contribution that was held back is sent on with the message of the vault's own
/// strategy, in the contributor's name or through the account that is set as the proxy,
/// which the proxy strategy needs. Each message can be sent, and leads to the runtime in
/// which the next is sent.
pub open spec fn messages_sent<T: Config>(
    walk: Walk<T>,
    numbers: Seq<QueryId>,
    start: T,
    state: State,
    crowdloan: ParaId,
    vault: Vault,
) -> bool {
    let pending = child_id::<T>(vault.trie_index, ChildStorageKind::Pending);
    let visited = walk.visited;
    &&& walk.steps.len() == visited.len() + 1
    &&& numbers.len() == visited.len()
    &&& walk.steps[0] == start
    &&& visited.len() > 0 && vault.contribution_strategy == ContributionStrategy::XCMPROXY
        ==> state.proxy_address is Some
    &&& forall|i: int|
        #![trigger visited[i]]
        0 <= i < visited.len() ==> {
            let amount = amount_in(state.contributions, pending, visited[i]) as Balance;
            (match vault.contribution_strategy {
                ContributionStrategy::XCM => walk.steps[i].spec_xcm_contribute(
                    crowdloan,
                    amount,
                    visited[i],
                    blank_report(),
                ),
                ContributionStrategy::XCMPROXY => walk.steps[i].spec_xcm_proxy_contribute(
                    crowdloan,
                    amount,
                    state.proxy_address->0,
                    blank_report(),
                ),
            }) == (walk.steps[i + 1], Ok::<QueryId, DispatchError>(numbers[i]))
        }
}

/// What is recorded of contributions that were sent on: they are no longer held back but
/// on their way, with their referral codes; the message that is awaited under each number
/// names the contributor, the crowdloan, the lease, the amount and the referral code; each
/// is told in an event; and all of it moves from one sum of the vault to the other. Nothing
/// else changes.
pub open spec fn sending_recorded<T: Config>(
    visited: Seq<AccountId>,
    numbers: Seq<QueryId>,
    before: State,
    after: State,
    crowdloan: ParaId,
    vault: Vault,
    changed: Vault,
) -> bool {
    let pending = child_id::<T>(vault.trie_index, ChildStorageKind::Pending);
    let flying = child_id::<T>(vault.trie_index, ChildStorageKind::Flying);
    let m = before.contributions;
    let id = (vault.lease_start, vault.lease_end);
    let sum = sum_in(m, pending, visited);
    &&& forall|i: int|
        #![trigger visited[i]]
        0 <= i < visited.len() ==> {
            let who = visited[i];
            let held = amount_in(m, pending, who);
            let key = ContributionKey { child: flying, who };
            &&& !after.contributions.contains_key(ContributionKey { child: pending, who })
            &&& after.contributions.contains_key(key)
            &&& after.contributions[key].amount == amount_in(m, flying, who) + held
            &&& after.contributions[key].referral_code == code_in(m, pending, who)
            &&& after.events[before.events.len() + i] == Event::VaultDoContributing(
                crowdloan,
                id,
                who,
                held as Balance,
                code_in(m, pending, who),
            )
            &&& !numbers.skip(i + 1).contains(numbers[i]) ==> {
                &&& after.xcm_requests.contains_key(numbers[i])
                &&& after.xcm_requests[numbers[i]] == (XcmRequest::Contribute {
                    crowdloan,
                    vault_id: id,
                    who,
                    amount: held as Balance,
                    referral_code: code_in(m, pending, who),
                })
            }
        }
    &&& forall|k: ContributionKey<Seq<u8>>|
        !(visited.contains(k.who) && (k.child == pending || k.child == flying)) ==> {
            &&& #[trigger] after.contributions.contains_key(k) <==> m.contains_key(k)
            &&& m.contains_key(k) ==> after.contributions[k] == m[k]
        }
    &&& forall|q: QueryId|
        !numbers.contains(q) ==> {
            &&& #[trigger] after.xcm_requests.contains_key(q) <==> before.xcm_requests.contains_key(q)
            &&& before.xcm_requests.contains_key(q) ==> after.xcm_requests[q]
                == before.xcm_requests[q]
        }
    &&& after.events.len() == before.events.len() + visited.len()
    &&& before.events == after.events.take(before.events.len() as int)
    &&& changed.pending == vault.pending - sum
    &&& changed.flying == vault.flying + sum
    &&& changed == (Vault { pending: changed.pending, flying: changed.flying, ..vault })
    &&& after == (State {
        contributions: after.contributions,
        xcm_requests: after.xcm_requests,
        events: after.events,
        ..before
    })
}

/// Why a migration that has come to some accounts cannot send on what the next one has.
pub open spec fn migration_error<T: Config>(
    walk: Walk<T>,
    state: State,
    crowdloan: ParaId,
    vault: Vault,
    who: AccountId,
) -> CallError {
    let pending = child_id::<T>(vault.trie_index, ChildStorageKind::Pending);
    let flying = child_id::<T>(vault.trie_index, ChildStorageKind::Flying);
    let m = state.contributions;
    let sum = sum_in(m, pending, walk.visited);
    let held = amount_in(m, pending, who);
    let sent = message(
        walk.steps.last(),
        vault.contribution_strategy,
        state.proxy_address,
        crowdloan,
        held as Balance,
        who,
    ).1;
    if vault.pending - sum < held {
        CallError::Arithmetic(ArithmeticError::Underflow)
    } else if vault.flying + sum + held > u128::MAX || amount_in(m, flying, who) + held > u128::MAX {
        CallError::Arithmetic(ArithmeticError::Overflow)
    } else if vault.contribution_strategy == ContributionStrategy::XCMPROXY
        && state.proxy_address is None {
        CallError::Module(Error::EmptyProxyAddress)
    } else {
        CallError::Service(sent->Err_0)
    }
}

/// The next account of a migration cannot be served.
pub open spec fn migration_fails<T: Config>(
    walk: Walk<T>,
    state: State,
    crowdloan: ParaId,
    vault: Vault,
    who: AccountId,
) -> bool {
    let pending = child_id::<T>(vault.trie_index, ChildStorageKind::Pending);
    let flying = child_id::<T>(vault.trie_index, ChildStorageKind::Flying);
    let m = state.contributions;
    let sum = sum_in(m, pending, walk.visited);
    let held = amount_in(m, pending, who);
    ||| vault.pending - sum < held
    ||| vault.flying + sum + held > u128::MAX
    ||| amount_in(m, flying, who) + held > u128::MAX
    ||| vault.contribution_strategy == ContributionStrategy::XCMPROXY && state.proxy_address is None
    ||| message(
        walk.steps.last(),
        vault.contribution_strategy,
        state.proxy_address,
        crowdloan,
        held as Balance,
        who,
    ).1 is Err
}

/// One contribution that was held back, where it can be sent on.
proof fn migrating_one<T: Config>(
    world: World<T>,
    who: AccountId,
    crowdloan: ParaId,
    vault: Vault,
)
    requires
        world.state.entries_positive(),
        child_id::<T>(vault.trie_index, ChildStorageKind::Pending) != child_id::<T>(
            vault.trie_index,
            ChildStorageKind::Flying,
        ),
        world.state.contributions.contains_key(
            ContributionKey {
                child: child_id::<T>(vault.trie_index, ChildStorageKind::Pending),
                who,
            },
        ),
    ensures
        ({
            let pending = child_id::<T>(vault.trie_index, ChildStorageKind::Pending);
            let flying = child_id::<T>(vault.trie_index, ChildStorageKind::Flying);
            let s = world.state;
            let m = s.contributions;
            let id = (vault.lease_start, vault.lease_end);
            let held = amount_in(m, pending, who);
            let code = code_in(m, pending, who);
            let (runtime, sent) = message(
                world.runtime,
                vault.contribution_strategy,
                s.proxy_address,
                crowdloan,
                held as Balance,
                who,
            );
            let (after, changed, result) = world.migrate_one(who, crowdloan, vault);
            let walk = Walk { visited: Seq::empty(), steps: seq![world.runtime] };
            &&& result is Err <==> migration_fails(walk, s, crowdloan, vault, who)
            &&& result is Err ==> result == Err::<(), CallError>(
                migration_error(walk, s, crowdloan, vault, who),
            )
            &&& result is Ok ==> {
                &&& after.runtime == runtime
                &&& sent is Ok
                &&& vault.contribution_strategy == ContributionStrategy::XCMPROXY
                    ==> s.proxy_address is Some
                &&& after.state.contributions == m.remove(
                    ContributionKey { child: pending, who },
                ).insert(
                    ContributionKey { child: flying, who },
                    Contribution {
                        amount: (amount_in(m, flying, who) + held) as Balance,
                        referral_code: code,
                    },
                )
                &&& after.state == (State {
                    contributions: after.state.contributions,
                    xcm_requests: s.xcm_requests.insert(
                        sent->Ok_0,
                        XcmRequest::Contribute {
                            crowdloan,
                            vault_id: id,
                            who,
                            amount: held as Balance,
                            referral_code: code,
                        },
                    ),
                    events: s.events.push(
                        Event::VaultDoContributing(crowdloan, id, who, held as Balance, code),
                    ),
                    ..s
                })
                &&& vault.pending - held >= 0
                &&& vault.flying + held <= u128::MAX
                &&& amount_in(m, flying, who) + held <= u128::MAX
                &&& changed == (Vault {
                    pending: (vault.pending - held) as Balance,
                    flying: (vault.flying + held) as Balance,
                    ..vault
                })
            }
        }),
{
    let pending = child_id::<T>(vault.trie_index, ChildStorageKind::Pending);
    assert(world.state.contributions[ContributionKey { child: pending, who }].amount > 0);
}

/// A migration that goes on from a cursor.
proof fn migrating_from<T: Config>(
    world: World<T>,
    crowdloan: ParaId,
    vault: Vault,
    cursor: Option<AccountId>,
    count: nat,
) -> (r: (Walk<T>, Seq<QueryId>, AccountId))
    requires
        world.state.entries_positive(),
        child_id::<T>(vault.trie_index, ChildStorageKind::Pending) != child_id::<T>(
            vault.trie_index,
            ChildStorageKind::Flying,
        ),
        all_behind(world.state, child_id::<T>(vault.trie_index, ChildStorageKind::Pending), cursor),
        count <= T::spec_constants().migrate_keys_limit,
    ensures
        ({
            let (walk, numbers, stuck) = r;
            let pending = child_id::<T>(vault.trie_index, ChildStorageKind::Pending);
            let limit = T::spec_constants().migrate_keys_limit - count;
            let m = world.state.contributions;
            let (after, changed, result) = world.migrate_from(crowdloan, vault, cursor, count);
            &&& messages_sent(walk, numbers, world.runtime, world.state, crowdloan, vault)
            &&& result is Ok ==> {
                &&& after.runtime == walk.steps.last()
                &&& first_in(m, pending, walk.visited, limit)
                &&& sending_recorded::<T>(
                    walk.visited,
                    numbers,
                    world.state,
                    after.state,
                    crowdloan,
                    vault,
                    changed,
                )
                &&& result->Ok_0 <==> is_empty(after.state.contributions, pending)
            }
            &&& result is Err ==> {
                &&& walk.visited.len() < limit
                &&& first_in(m, pending, walk.visited.push(stuck), (walk.visited.len() + 1) as int)
                &&& migration_fails(walk, world.state, crowdloan, vault, stuck)
                &&& result->Err_0 == migration_error(walk, world.state, crowdloan, vault, stuck)
            }
        }),
    decreases T::spec_constants().migrate_keys_limit - count,
{
    let pending = child_id::<T>(vault.trie_index, ChildStorageKind::Pending);
    let flying = child_id::<T>(vault.trie_index, ChildStorageKind::Flying);
    let s = world.state;
    let m = s.contributions;
    let next = s.next_contributor(pending, cursor);
    let none = Walk { visited: Seq::<AccountId>::empty(), steps: seq![world.runtime] };
    let limit = T::spec_constants().migrate_keys_limit - count;
    if next is None {
        assert forall|who: AccountId| !#[trigger]
            m.contains_key(ContributionKey { child: pending, who }) by {
            if m.contains_key(ContributionKey { child: pending, who }) {
                walk_goes_on(s, pending, cursor, who);
            }
        }
        assert(s.events.take(s.events.len() as int) =~= s.events);
        (none, Seq::empty(), arbitrary())
    } else {
        let who = next->0;
        assert(s.is_next(pending, cursor, who));
        assert(s.is_behind(pending, cursor, who));
        if limit == 0 {
            assert(s.events.take(s.events.len() as int) =~= s.events);
            (none, Seq::empty(), arbitrary())
        } else {
            migrating_one::<T>(world, who, crowdloan, vault);
            let (sent, changed, result) = world.migrate_one(who, crowdloan, vault);
            if result is Err {
                let visited = none.visited.push(who);
                assert forall|w: AccountId| #[trigger]
                    m.contains_key(ContributionKey { child: pending, who: w }) && !visited.contains(
                    w,
                ) implies precedes(who@, w@) by {
                    assert(s.is_behind(pending, cursor, w));
                    assert(visited[0] == who);
                    precedes_total(w@, who@);
                    if w@ == who@ {
                        assert(w =~= who);
                    }
                }
                (none, Seq::empty(), who)
            } else {
                let m1 = sent.state.contributions;
                others_are_behind(s, sent.state, pending, cursor, who);
                let (rest, later, stuck) = migrating_from::<T>(
                    sent,
                    crowdloan,
                    changed,
                    Some(who),
                    count + 1,
                );
                let number = message(
                    world.runtime,
                    vault.contribution_strategy,
                    s.proxy_address,
                    crowdloan,
                    amount_in(m, pending, who) as Balance,
                    who,
                ).1->Ok_0;
                let walk = Walk {
                    visited: seq![who] + rest.visited,
                    steps: seq![world.runtime] + rest.steps,
                };
                let numbers = seq![number] + later;
                let (after, end, outcome) = world.migrate_from(crowdloan, vault, cursor, count);
                if outcome is Ok {
                    first_and_then(m, m1, pending, who, rest.visited, limit - 1);
                } else {
                    first_and_then(
                        m,
                        m1,
                        pending,
                        who,
                        rest.visited.push(stuck),
                        rest.visited.len() as int + 1,
                    );
                    assert((seq![who] + rest.visited).push(stuck) =~= seq![who] + rest.visited.push(
                        stuck,
                    ));
                    if rest.visited.contains(who) {
                        let i = choose|i: int|
                            0 <= i < rest.visited.len() && rest.visited[i] == who;
                        assert(rest.visited.push(stuck)[i] == who);
                    }
                    assert(rest.visited.push(stuck)[rest.visited.len() as int] == stuck);
                    assert(stuck != who);
                }
                assert(!rest.visited.contains(who));
                assert forall|i: int|
                    #![trigger rest.visited[i]]
                    0 <= i < rest.visited.len() implies rest.visited[i] != who by {}
                same_sum(m, m1, pending, rest.visited);
                assert(walk.visited.drop_first() =~= rest.visited);
                assert(walk.steps.last() == rest.steps.last());
                prepend_messages::<T>(world, sent, who, crowdloan, vault, changed, rest, later);
                if outcome is Ok {
                    prepend_record::<T>(
                        world,
                        sent,
                        after.state,
                        who,
                        number,
                        crowdloan,
                        vault,
                        changed,
                        end,
                        rest.visited,
                        later,
                    );
                }
                (walk, numbers, stuck)
            }
        }
    }
}

/// One more message before others.
proof fn prepend_messages<T: Config>(
    world: World<T>,
    sent: World<T>,
    who: AccountId,
    crowdloan: ParaId,
    vault: Vault,
    changed: Vault,
    rest: Walk<T>,
    later: Seq<QueryId>,
)
    requires
        ({
            let pending = child_id::<T>(vault.trie_index, ChildStorageKind::Pending);
            let m = world.state.contributions;
            let (runtime, reply) = message(
                world.runtime,
                vault.contribution_strategy,
                world.state.proxy_address,
                crowdloan,
                amount_in(m, pending, who) as Balance,
                who,
            );
            &&& reply is Ok
            &&& sent.runtime == runtime
            &&& vault.contribution_strategy == ContributionStrategy::XCMPROXY
                ==> world.state.proxy_address is Some
            &&& changed.trie_index == vault.trie_index
            &&& changed.contribution_strategy == vault.contribution_strategy
            &&& sent.state.proxy_address == world.state.proxy_address
            &&& messages_sent(rest, later, sent.runtime, sent.state, crowdloan, changed)
            &&& forall|i: int|
                #![trigger rest.visited[i]]
                0 <= i < rest.visited.len() ==> amount_in(m, pending, rest.visited[i])
                    == amount_in(sent.state.contributions, pending, rest.visited[i])
        }),
    ensures
        ({
            let pending = child_id::<T>(vault.trie_index, ChildStorageKind::Pending);
            let number = message(
                world.runtime,
                vault.contribution_strategy,
                world.state.proxy_address,
                crowdloan,
                amount_in(world.state.contributions, pending, who) as Balance,
                who,
            ).1->Ok_0;
            messages_sent(
                Walk { visited: seq![who] + rest.visited, steps: seq![world.runtime] + rest.steps },
                seq![number] + later,
                world.runtime,
                world.state,
                crowdloan,
                vault,
            )
        }),
{
    let visited = seq![who] + rest.visited;
    let steps = seq![world.runtime] + rest.steps;
    assert forall|i: int| 1 <= i < visited.len() implies #[trigger] visited[i] == rest.visited[i
        - 1] && steps[i] == rest.steps[i - 1] && steps[i + 1] == rest.steps[i] by {}
    assert(visited[0] == who);
    assert(steps[0] == world.runtime && steps[1] == rest.steps[0]);
}

/// What is recorded of one more contribution before others.
proof fn prepend_record<T: Config>(
    world: World<T>,
    sent: World<T>,
    after: State,
    who: AccountId,
    number: QueryId,
    crowdloan: ParaId,
    vault: Vault,
    changed: Vault,
    end: Vault,
    rest: Seq<AccountId>,
    later: Seq<QueryId>,
)
    requires
        ({
            let pending = child_id::<T>(vault.trie_index, ChildStorageKind::Pending);
            let flying = child_id::<T>(vault.trie_index, ChildStorageKind::Flying);
            let s = world.state;
            let m = s.contributions;
            let id = (vault.lease_start, vault.lease_end);
            let held = amount_in(m, pending, who);
            let code = code_in(m, pending, who);
            &&& pending != flying
            &&& m.contains_key(ContributionKey { child: pending, who })
            &&& !rest.contains(who)
            &&& later.len() == rest.len()
            &&& 0 <= vault.pending - held
            &&& vault.flying + held <= u128::MAX
            &&& amount_in(m, flying, who) + held <= u128::MAX
            &&& sent.state.contributions == m.remove(ContributionKey { child: pending, who }).insert(
                ContributionKey { child: flying, who },
                Contribution {
                    amount: (amount_in(m, flying, who) + held) as Balance,
                    referral_code: code,
                },
            )
            &&& sent.state == (State {
                contributions: sent.state.contributions,
                xcm_requests: s.xcm_requests.insert(
                    number,
                    XcmRequest::Contribute {
                        crowdloan,
                        vault_id: id,
                        who,
                        amount: held as Balance,
                        referral_code: code,
                    },
                ),
                events: s.events.push(
                    Event::VaultDoContributing(crowdloan, id, who, held as Balance, code),
                ),
                ..s
            })
            &&& changed == (Vault {
                pending: (vault.pending - held) as Balance,
                flying: (vault.flying + held) as Balance,
                ..vault
            })
            &&& sending_recorded::<T>(rest, later, sent.state, after, crowdloan, changed, end)
        }),
    ensures
        sending_recorded::<T>(
            seq![who] + rest,
            seq![number] + later,
            world.state,
            after,
            crowdloan,
            vault,
            end,
        ),
{
    let pending = child_id::<T>(vault.trie_index, ChildStorageKind::Pending);
    let flying = child_id::<T>(vault.trie_index, ChildStorageKind::Flying);
    let s = world.state;
    let m = s.contributions;
    let m1 = sent.state.contributions;
    let visited = seq![who] + rest;
    let numbers = seq![number] + later;
    let n = s.events.len() as int;
    assert(visited[0] == who && numbers[0] == number);
    assert forall|i: int| 1 <= i < visited.len() implies #[trigger] visited[i] == rest[i - 1]
        && numbers[i] == later[i - 1] && numbers.skip(i + 1) =~= later.skip(i) by {}
    assert(numbers.skip(1) =~= later);
    assert(visited.contains(who)) by {
        assert(visited[0] == who);
    }
    assert forall|w: AccountId| #[trigger] visited.contains(w) <==> w == who || rest.contains(w) by {
        if rest.contains(w) {
            let i = choose|i: int| 0 <= i < rest.len() && rest[i] == w;
            assert(visited[i + 1] == w);
        }
    }
    assert forall|q: QueryId| #[trigger] numbers.contains(q) <==> q == number || later.contains(q) by {
        if later.contains(q) {
            let i = choose|i: int| 0 <= i < later.len() && later[i] == q;
            assert(numbers[i + 1] == q);
        }
        if q == number {
            assert(numbers[0] == q);
        }
    }
    assert forall|w: AccountId| w != who implies #[trigger] amount_in(m, pending, w) == amount_in(
        m1,
        pending,
        w,
    ) && amount_in(m, flying, w) == amount_in(m1, flying, w) && code_in(m, pending, w) == code_in(
        m1,
        pending,
        w,
    ) by {}
    assert forall|i: int| #![trigger rest[i]] 0 <= i < rest.len() implies rest[i] != who by {}
    same_sum(m, m1, pending, rest);
    assert(visited.drop_first() =~= rest);
    assert(after.events.take(n) =~= s.events) by {
        assert forall|i: int| 0 <= i < n implies after.events.take(n)[i] == s.events[i] by {
            assert(sent.state.events[i] == after.events.take(n + 1)[i]);
        }
    }
    assert(after.events[n] == sent.state.events[n]) by {
        assert(sent.state.events[n] == after.events.take(n + 1)[n]);
    }
    assert forall|i: int| #![trigger visited[i]] 0 <= i < visited.len() implies {
        let w = visited[i];
        let held = amount_in(m, pending, w);
        let key = ContributionKey { child: flying, who: w };
        &&& !after.contributions.contains_key(ContributionKey { child: pending, who: w })
        &&& after.contributions.contains_key(key)
        &&& after.contributions[key].amount == amount_in(m, flying, w) + held
        &&& after.contributions[key].referral_code == code_in(m, pending, w)
        &&& after.events[n + i] == Event::VaultDoContributing(
            crowdloan,
            (vault.lease_start, vault.lease_end),
            w,
            held as Balance,
            code_in(m, pending, w),
        )
        &&& !numbers.skip(i + 1).contains(numbers[i]) ==> {
            &&& after.xcm_requests.contains_key(numbers[i])
            &&& after.xcm_requests[numbers[i]] == (XcmRequest::Contribute {
                crowdloan,
                vault_id: (vault.lease_start, vault.lease_end),
                who: w,
                amount: held as Balance,
                referral_code: code_in(m, pending, w),
            })
        }
    } by {
        if i > 0 {
            assert(rest[i - 1] == visited[i]);
            assert(rest[i - 1] != who);
            assert(numbers.skip(i + 1) =~= later.skip(i));
        } else {
            let p = ContributionKey { child: pending, who };
            let f = ContributionKey { child: flying, who };
            assert(after.contributions.contains_key(p) <==> m1.contains_key(p));
            assert(after.contributions.contains_key(f) <==> m1.contains_key(f));
            assert(after.xcm_requests.contains_key(number) || later.contains(number));
        }
    }
    assert forall|k: ContributionKey<Seq<u8>>|
        !(visited.contains(k.who) && (k.child == pending || k.child == flying)) implies {
        &&& #[trigger] after.contributions.contains_key(k) <==> m.contains_key(k)
        &&& m.contains_key(k) ==> after.contributions[k] == m[k]
    } by {
        assert(m1.contains_key(k) <==> m.contains_key(k));
    }
    assert forall|q: QueryId| !numbers.contains(q) implies {
        &&& #[trigger] after.xcm_requests.contains_key(q) <==> s.xcm_requests.contains_key(q)
        &&& s.xcm_requests.contains_key(q) ==> after.xcm_requests[q] == s.xcm_requests[q]
    } by {
        assert(sent.state.xcm_requests.contains_key(q) <==> s.xcm_requests.contains_key(q));
    }
    assert(sum_in(m, pending, visited) == amount_in(m, pending, who) + sum_in(m, pending, rest));
    assert(s.events == after.events.take(n));
    assert(end == (Vault { pending: end.pending, flying: end.flying, ..vault }));
    assert(after == (State {
        contributions: after.contributions,
        xcm_requests: after.xcm_requests,
        events: after.events,
        ..s
    }));
}

/// A migration that succeeds was asked for by an origin that may, of a vault that the
/// crowdloan bids with, that is not open yet or open, and not during the draw. It sends on
/// the first contributions that are held back, all or as many as the limit of one call, and
/// says whether any is left.
pub proof fn migrating<T: Config>(
    world: World<T>,
    origin: Origin<T::OtherOrigin>,
    crowdloan: ParaId,
) -> (r: (Walk<T>, Seq<QueryId>))
    requires
        in_order::<T>(world.state),
        collision_free::<T>(),
        world.migrate_pending(origin, crowdloan).1 is Ok,
    ensures
        ({
            let (walk, numbers) = r;
            let start = world.runtime.spec_start_transaction();
            let s = world.state;
            let key = bid_key(s, crowdloan);
            let id = (key.1, key.2);
            let v = s.vaults[key];
            let pending = child_id::<T>(v.trie_index, ChildStorageKind::Pending);
            let after = world.migrate_pending(origin, crowdloan).0;
            let told = State { vaults: s.vaults, events: after.state.events.drop_last(), ..after.state };
            &&& may(start, RequiredOrigin::MigrateOrigin, origin)
            &&& bids(s, crowdloan)
            &&& v.phase == VaultPhase::Pending || v.phase == VaultPhase::Contributing
            &&& !s.is_vrf
            &&& first_in(
                s.contributions,
                pending,
                walk.visited,
                T::spec_constants().migrate_keys_limit as int,
            )
            &&& messages_sent(walk, numbers, start, s, crowdloan, v)
            &&& sending_recorded::<T>(
                walk.visited,
                numbers,
                s,
                told,
                crowdloan,
                v,
                after.state.vaults[key],
            )
            &&& after.runtime == walk.steps.last().spec_commit_transaction()
            &&& after.state.vaults == s.vaults.insert(key, after.state.vaults[key])
            &&& after.state.events.len() > 0
            &&& after.state.events.last() == if is_empty(after.state.contributions, pending) {
                Event::<Seq<u8>>::AllMigrated(crowdloan, id)
            } else {
                Event::<Seq<u8>>::PartiallyMigrated(crowdloan, id)
            }
        }),
{
    let s = world.state;
    let key = bid_key(s, crowdloan);
    let v = s.vaults[key];
    let begun = world.begun();
    assert(s.vaults.contains_key(key));
    let pending = child_id::<T>(v.trie_index, ChildStorageKind::Pending);
    assert(pending != child_id::<T>(v.trie_index, ChildStorageKind::Flying));
    let (walk, numbers, _) = migrating_from::<T>(begun, crowdloan, v, None, 0);
    let (moved, changed, _) = begun.migrate_from(crowdloan, v, None, 0);
    let after = world.migrate_pending(origin, crowdloan).0.state;
    assert(after.events.drop_last() =~= moved.state.events);
    assert((State { vaults: s.vaults, events: after.events.drop_last(), ..after }) =~= moved.state);
    (walk, numbers)
}

/// A migration that fails leaves the pallet as it was and says why: the origin may not, the
/// crowdloan bids with no vault, the vault is in another phase, the end of the auction is
/// drawn, or what the first account that cannot be served has cannot be sent on.
pub proof fn migrating_fails<T: Config>(
    world: World<T>,
    origin: Origin<T::OtherOrigin>,
    crowdloan: ParaId,
) -> (r: (Walk<T>, Seq<QueryId>, AccountId))
    requires
        in_order::<T>(world.state),
        collision_free::<T>(),
        world.migrate_pending(origin, crowdloan).1 is Err,
    ensures
        ({
            let (walk, numbers, stuck) = r;
            let start = world.runtime.spec_start_transaction();
            let s = world.state;
            let v = s.vaults[bid_key(s, crowdloan)];
            let pending = child_id::<T>(v.trie_index, ChildStorageKind::Pending);
            let (after, result) = world.migrate_pending(origin, crowdloan);
            &&& after.state == s
            &&& if !may(start, RequiredOrigin::MigrateOrigin, origin) {
                result->Err_0 == CallError::BadOrigin
            } else if !bids(s, crowdloan) {
                result->Err_0 == CallError::Module(Error::VaultDoesNotExist)
            } else if v.phase != VaultPhase::Pending && v.phase != VaultPhase::Contributing {
                result->Err_0 == CallError::Module(Error::IncorrectVaultPhase)
            } else if s.is_vrf {
                result->Err_0 == CallError::Module(Error::VrfDelayInProgress)
            } else {
                &&& walk.visited.len() < T::spec_constants().migrate_keys_limit
                &&& first_in(
                    s.contributions,
                    pending,
                    walk.visited.push(stuck),
                    (walk.visited.len() + 1) as int,
                )
                &&& messages_sent(walk, numbers, start, s, crowdloan, v)
                &&& migration_fails(walk, s, crowdloan, v, stuck)
                &&& result->Err_0 == migration_error(walk, s, crowdloan, v, stuck)
            }
        }),
{
    let s = world.state;
    let begun = world.begun();
    if may(begun.runtime, RequiredOrigin::MigrateOrigin, origin) && bids(s, crowdloan) {
        let v = s.vaults[bid_key(s, crowdloan)];
        assert(child_id::<T>(v.trie_index, ChildStorageKind::Pending) != child_id::<T>(
            v.trie_index,
            ChildStorageKind::Flying,
        ));
        migrating_from::<T>(begun, crowdloan, v, None, 0)
    } else {
        arbitrary()
    }
}

/// A vault of the proxy strategy for which something is held back is not migrated while no
/// proxy address is set. Where its sums can be counted together, the call says so.
pub proof fn no_migration_without_proxy<T: Config>(
    world: World<T>,
    origin: Origin<T::OtherOrigin>,
    crowdloan: ParaId,
)
    requires
        in_order::<T>(world.state),
        collision_free::<T>(),
        bids(world.state, crowdloan),
        ({
            let v = world.state.vaults[bid_key(world.state, crowdloan)];
            &&& v.contribution_strategy == ContributionStrategy::XCMPROXY
            &&& !is_empty(
                world.state.contributions,
                child_id::<T>(v.trie_index, ChildStorageKind::Pending),
            )
        }),
        world.state.proxy_address is None,
        T::spec_constants().migrate_keys_limit > 0,
    ensures
        ({
            let s = world.state;
            let v = s.vaults[bid_key(s, crowdloan)];
            let (after, result) = world.migrate_pending(origin, crowdloan);
            &&& result is Err
            &&& after.state == s
            &&& {
                &&& may(
                    world.runtime.spec_start_transaction(),
                    RequiredOrigin::MigrateOrigin,
                    origin,
                )
                &&& v.phase == VaultPhase::Pending || v.phase == VaultPhase::Contributing
                &&& !s.is_vrf
                &&& v.pending + v.flying <= u128::MAX
            } ==> result == Err::<(), CallError>(CallError::Module(Error::EmptyProxyAddress))
        }),
{
    let s = world.state;
    let v = s.vaults[bid_key(s, crowdloan)];
    let pending = child_id::<T>(v.trie_index, ChildStorageKind::Pending);
    let flying = child_id::<T>(v.trie_index, ChildStorageKind::Flying);
    let held = choose|who: AccountId| #[trigger]
        s.contributions.contains_key(ContributionKey { child: pending, who });
    if world.migrate_pending(origin, crowdloan).1 is Ok {
        let (walk, numbers) = migrating::<T>(world, origin, crowdloan);
        assert(walk.visited.len() == 0);
        assert(s.contributions.contains_key(ContributionKey { child: pending, who: held })
            && !walk.visited.contains(held));
    } else {
        let (walk, numbers, stuck) = migrating_fails::<T>(world, origin, crowdloan);
        if may(world.begun().runtime, RequiredOrigin::MigrateOrigin, origin) && (v.phase
            == VaultPhase::Pending || v.phase == VaultPhase::Contributing) && !s.is_vrf {
            assert(walk.visited.len() == 0);
            assert(s.vault_agrees::<T>(v));
            assert(walk.visited.push(stuck)[0] == stuck);
            entry_at_most_total(s.contributions, ContributionKey { child: pending, who: stuck });
            if s.contributions.contains_key(ContributionKey { child: flying, who: stuck }) {
                entry_at_most_total(s.contributions, ContributionKey { child: flying, who: stuck });
            }
        }
    }
}

// ---- Refunding ----

/// Each contribution of a kind is given back to the account that made it, all of it: what
/// was confirmed is created anew, what was not comes from the account that collects
/// contributions. Each payment succeeds, and leads to the runtime in which the next is made.
pub open spec fn payments_made<T: Config>(
    walk: Walk<T>,
    start: T,
    state: State,
    vault: Vault,
    kind: ChildStorageKind,
) -> bool {
    let child = child_id::<T>(vault.trie_index, kind);
    let visited = walk.visited;
    &&& walk.steps.len() == visited.len() + 1
    &&& walk.steps[0] == start
    &&& forall|i: int|
        #![trigger visited[i]]
        0 <= i < visited.len() ==> {
            let amount = amount_in(state.contributions, child, visited[i]) as Balance;
            let (next, paid) = if kind is Contributed {
                walk.steps[i].spec_mint_into(
                    T::spec_constants().relay_currency,
                    visited[i],
                    amount,
                )
            } else {
                walk.steps[i].spec_transfer(
                    T::spec_constants().relay_currency,
                    World::<T>::account_id(),
                    visited[i],
                    amount,
                    false,
                )
            };
            next == walk.steps[i + 1] && paid is Ok
        }
}

/// The entries of the accounts in a child trie are gone, all others are as they were.
pub open spec fn taken_out(
    before: Map<ContributionKey<Seq<u8>>, Contribution<Seq<u8>>>,
    after: Map<ContributionKey<Seq<u8>>, Contribution<Seq<u8>>>,
    child: Seq<u8>,
    visited: Seq<AccountId>,
) -> bool {
    forall|k: ContributionKey<Seq<u8>>|
        {
            &&& #[trigger] after.contains_key(k) <==> before.contains_key(k) && !(k.child == child
                && visited.contains(k.who))
            &&& after.contains_key(k) ==> after[k] == before[k]
        }
}

/// A refund that has come to some accounts cannot give back what the next one has: the
/// payment fails, or the vault counts less than that.
pub open spec fn refund_stuck<T: Config>(
    walk: Walk<T>,
    state: State,
    vault: Vault,
    kind: ChildStorageKind,
    who: AccountId,
    limit: int,
    error: CallError,
) -> bool {
    let child = child_id::<T>(vault.trie_index, kind);
    let m = state.contributions;
    let held = amount_in(m, child, who);
    let paid = given_back(walk.steps.last(), kind, who, held as Balance).1;
    &&& walk.visited.len() < limit
    &&& first_in(m, child, walk.visited.push(who), (walk.visited.len() + 1) as int)
    &&& if paid is Err {
        error == CallError::Service(paid->Err_0)
    } else {
        &&& count_of(vault, kind) - sum_in(m, child, walk.visited) < held
        &&& error == CallError::Arithmetic(ArithmeticError::Underflow)
    }
}

/// One contribution that is given back, where that can be done.
proof fn refunding_one<T: Config>(
    world: World<T>,
    who: AccountId,
    vault: Vault,
    kind: ChildStorageKind,
)
    requires
        world.state.contributions.contains_key(
            ContributionKey { child: child_id::<T>(vault.trie_index, kind), who },
        ),
    ensures
        ({
            let child = child_id::<T>(vault.trie_index, kind);
            let s = world.state;
            let m = s.contributions;
            let held = amount_in(m, child, who);
            let (runtime, paid) = given_back(world.runtime, kind, who, held as Balance);
            let (after, changed, result) = world.do_refund_for(who, vault, kind, held as Balance);
            &&& held == s.contribution(child, who).amount
            &&& result is Err <==> paid is Err || count_of(vault, kind) < held
            &&& result is Err ==> result->Err_0 == if paid is Err {
                CallError::Service(paid->Err_0)
            } else {
                CallError::Arithmetic(ArithmeticError::Underflow)
            }
            &&& result is Ok ==> {
                &&& after.runtime == runtime
                &&& after.state.contributions == m.remove(ContributionKey { child, who })
                &&& after.state == (State { contributions: after.state.contributions, ..s })
                &&& count_of(changed, kind) == count_of(vault, kind) - held
                &&& changed == less_of(vault, kind, held as Balance)
            }
        }),
{
}

/// A refund of one kind that goes on from a cursor.
proof fn refunding_from<T: Config>(
    world: World<T>,
    vault: Vault,
    kind: ChildStorageKind,
    cursor: Option<AccountId>,
    count: nat,
) -> (r: (Walk<T>, AccountId))
    requires
        world.state.entries_positive(),
        all_behind(world.state, child_id::<T>(vault.trie_index, kind), cursor),
        count <= T::spec_constants().remove_keys_limit,
    ensures
        ({
            let (walk, stuck) = r;
            let child = child_id::<T>(vault.trie_index, kind);
            let limit = T::spec_constants().remove_keys_limit - count;
            let m = world.state.contributions;
            let sum = sum_in(m, child, walk.visited);
            let (after, changed, result) = world.refund_from(vault, kind, cursor, count);
            &&& payments_made(walk, world.runtime, world.state, vault, kind)
            &&& result is Ok ==> {
                &&& after.runtime == walk.steps.last()
                &&& first_in(m, child, walk.visited, limit)
                &&& taken_out(m, after.state.contributions, child, walk.visited)
                &&& after.state == (State {
                    contributions: after.state.contributions,
                    ..world.state
                })
                &&& after.state.entries_positive()
                &&& 0 <= sum <= count_of(vault, kind)
                &&& changed == less_of(vault, kind, sum as Balance)
                &&& result->Ok_0.0 == count + walk.visited.len()
                &&& result->Ok_0.1 <==> is_empty(after.state.contributions, child)
            }
            &&& result is Err ==> refund_stuck(
                walk,
                world.state,
                vault,
                kind,
                stuck,
                limit,
                result->Err_0,
            )
        }),
    decreases T::spec_constants().remove_keys_limit - count,
{
    let child = child_id::<T>(vault.trie_index, kind);
    let s = world.state;
    let m = s.contributions;
    let next = s.next_contributor(child, cursor);
    let none = Walk { visited: Seq::<AccountId>::empty(), steps: seq![world.runtime] };
    let limit = T::spec_constants().remove_keys_limit - count;
    if next is None {
        assert forall|who: AccountId| !#[trigger] m.contains_key(ContributionKey { child, who }) by {
            if m.contains_key(ContributionKey { child, who }) {
                walk_goes_on(s, child, cursor, who);
            }
        }
        (none, arbitrary())
    } else {
        let who = next->0;
        assert(s.is_next(child, cursor, who));
        assert(s.is_behind(child, cursor, who));
        if limit == 0 {
            (none, arbitrary())
        } else {
            let amount = s.contribution(child, who).amount;
            refunding_one::<T>(world, who, vault, kind);
            let (paid, changed, result) = world.do_refund_for(who, vault, kind, amount);
            if result is Err {
                let visited = none.visited.push(who);
                assert forall|w: AccountId| #[trigger]
                    m.contains_key(ContributionKey { child, who: w }) && !visited.contains(
                    w,
                ) implies precedes(who@, w@) by {
                    assert(s.is_behind(child, cursor, w));
                    assert(visited[0] == who);
                    precedes_total(w@, who@);
                    if w@ == who@ {
                        assert(w =~= who);
                    }
                }
                (none, who)
            } else {
                let m1 = paid.state.contributions;
                assert(m1 == m.remove(ContributionKey { child, who }));
                others_are_behind(s, paid.state, child, cursor, who);
                let (rest, stuck) = refunding_from::<T>(paid, changed, kind, Some(who), count + 1);
                let walk = Walk {
                    visited: seq![who] + rest.visited,
                    steps: seq![world.runtime] + rest.steps,
                };
                let (after, end, outcome) = world.refund_from(vault, kind, cursor, count);
                if outcome is Ok {
                    first_and_then(m, m1, child, who, rest.visited, limit - 1);
                } else {
                    first_and_then(
                        m,
                        m1,
                        child,
                        who,
                        rest.visited.push(stuck),
                        rest.visited.len() as int + 1,
                    );
                    assert((seq![who] + rest.visited).push(stuck) =~= seq![who] + rest.visited.push(
                        stuck,
                    ));
                    if rest.visited.contains(who) {
                        let i = choose|i: int|
                            0 <= i < rest.visited.len() && rest.visited[i] == who;
                        assert(rest.visited.push(stuck)[i] == who);
                    }
                    assert(rest.visited.push(stuck)[rest.visited.len() as int] == stuck);
                    assert(stuck != who);
                }
                assert(!rest.visited.contains(who));
                assert forall|i: int|
                    #![trigger rest.visited[i]]
                    0 <= i < rest.visited.len() implies rest.visited[i] != who by {}
                same_sum(m, m1, child, rest.visited);
                assert(walk.visited.drop_first() =~= rest.visited);
                assert(walk.steps.last() == rest.steps.last());
                assert forall|w: AccountId| #[trigger]
                    walk.visited.contains(w) <==> w == who || rest.visited.contains(w) by {
                    if rest.visited.contains(w) {
                        let i = choose|i: int| 0 <= i < rest.visited.len() && rest.visited[i] == w;
                        assert(walk.visited[i + 1] == w);
                    }
                    if w == who {
                        assert(walk.visited[0] == w);
                    }
                }
                prepend_payments::<T>(world, paid, who, vault, changed, kind, rest);
                if outcome is Ok {
                    assert forall|k: ContributionKey<Seq<u8>>| {
                        &&& #[trigger] after.state.contributions.contains_key(k)
                            <==> m.contains_key(k) && !(k.child == child && walk.visited.contains(
                            k.who,
                        ))
                        &&& after.state.contributions.contains_key(k)
                            ==> after.state.contributions[k] == m[k]
                    } by {
                        assert(m1.contains_key(k) <==> m.contains_key(k) && k != (ContributionKey {
                            child,
                            who,
                        }));
                    }
                }
                (walk, stuck)
            }
        }
    }
}

/// One more payment before others.
proof fn prepend_payments<T: Config>(
    world: World<T>,
    paid: World<T>,
    who: AccountId,
    vault: Vault,
    changed: Vault,
    kind: ChildStorageKind,
    rest: Walk<T>,
)
    requires
        ({
            let child = child_id::<T>(vault.trie_index, kind);
            let m = world.state.contributions;
            let amount = amount_in(m, child, who) as Balance;
            &&& given_back(world.runtime, kind, who, amount).0 == paid.runtime
            &&& given_back(world.runtime, kind, who, amount).1 is Ok
            &&& changed.trie_index == vault.trie_index
            &&& payments_made(rest, paid.runtime, paid.state, changed, kind)
            &&& forall|i: int|
                #![trigger rest.visited[i]]
                0 <= i < rest.visited.len() ==> amount_in(m, child, rest.visited[i]) == amount_in(
                    paid.state.contributions,
                    child,
                    rest.visited[i],
                )
        }),
    ensures
        payments_made(
            Walk { visited: seq![who] + rest.visited, steps: seq![world.runtime] + rest.steps },
            world.runtime,
            world.state,
            vault,
            kind,
        ),
{
    let visited = seq![who] + rest.visited;
    let steps = seq![world.runtime] + rest.steps;
    assert forall|i: int| 1 <= i < visited.len() implies #[trigger] visited[i] == rest.visited[i
        - 1] && steps[i] == rest.steps[i - 1] && steps[i + 1] == rest.steps[i] by {}
    assert(visited[0] == who);
    assert(steps[0] == world.runtime && steps[1] == rest.steps[0]);
}

/// Two states have the same entries in a child trie.
spec fn same_trie(
    a: Map<ContributionKey<Seq<u8>>, Contribution<Seq<u8>>>,
    b: Map<ContributionKey<Seq<u8>>, Contribution<Seq<u8>>>,
    child: Seq<u8>,
) -> bool {
    forall|who: AccountId| {
        &&& #[trigger] a.contains_key(ContributionKey { child, who }) <==> b.contains_key(
            ContributionKey { child, who },
        )
        &&& a.contains_key(ContributionKey { child, who }) ==> a[ContributionKey { child, who }]
            == b[ContributionKey { child, who }]
    }
}

/// Where the entries are the same, a walk through them is the same.
proof fn same_walk<T: Config>(
    walk: Walk<T>,
    start: T,
    a: State,
    b: State,
    vault: Vault,
    other: Vault,
    kind: ChildStorageKind,
    limit: int,
)
    requires
        vault.trie_index == other.trie_index,
        same_trie(
            a.contributions,
            b.contributions,
            child_id::<T>(vault.trie_index, kind),
        ),
        payments_made(walk, start, b, other, kind),
    ensures
        payments_made(walk, start, a, vault, kind),
        first_in(
            b.contributions,
            child_id::<T>(vault.trie_index, kind),
            walk.visited,
            limit,
        ) ==> first_in(
            a.contributions,
            child_id::<T>(vault.trie_index, kind),
            walk.visited,
            limit,
        ),
        sum_in(a.contributions, child_id::<T>(vault.trie_index, kind), walk.visited) == sum_in(
            b.contributions,
            child_id::<T>(vault.trie_index, kind),
            walk.visited,
        ),
        forall|stuck: AccountId, error: CallError|
            count_of(vault, kind) == count_of(other, kind) && #[trigger] refund_stuck(
                walk,
                b,
                other,
                kind,
                stuck,
                limit,
                error,
            ) ==> refund_stuck(walk, a, vault, kind, stuck, limit, error),
{
    let child = child_id::<T>(vault.trie_index, kind);
    let m = a.contributions;
    let n = b.contributions;
    let visited = walk.visited;
    assert forall|w: AccountId| #[trigger] amount_in(m, child, w) == amount_in(n, child, w) by {
        assert(m.contains_key(ContributionKey { child, who: w }) <==> n.contains_key(
            ContributionKey { child, who: w },
        ));
    }
    same_sum(m, n, child, visited);
    same_firsts(m, n, child, visited, limit);
    assert forall|stuck: AccountId, error: CallError|
        count_of(vault, kind) == count_of(other, kind) && #[trigger] refund_stuck(
            walk,
            b,
            other,
            kind,
            stuck,
            limit,
            error,
        ) implies refund_stuck(walk, a, vault, kind, stuck, limit, error) by {
        same_firsts(m, n, child, visited.push(stuck), (visited.len() + 1) as int);
    }
}

/// Where the entries are the same, the first of them are.
proof fn same_firsts(
    a: Map<ContributionKey<Seq<u8>>, Contribution<Seq<u8>>>,
    b: Map<ContributionKey<Seq<u8>>, Contribution<Seq<u8>>>,
    child: Seq<u8>,
    visited: Seq<AccountId>,
    limit: int,
)
    requires
        same_trie(a, b, child),
    ensures
        first_in(b, child, visited, limit) ==> first_in(a, child, visited, limit),
{
    if first_in(b, child, visited, limit) {
        assert forall|i: int| #![trigger visited[i]] 0 <= i < visited.len() implies a.contains_key(
            ContributionKey { child, who: visited[i] },
        ) by {
            assert(b.contains_key(ContributionKey { child, who: visited[i] }));
        }
        assert forall|who: AccountId| #[trigger]
            a.contains_key(ContributionKey { child, who }) && !visited.contains(who) implies {
            &&& visited.len() == limit
            &&& forall|i: int|
                #![trigger visited[i]]
                0 <= i < visited.len() ==> precedes(visited[i]@, who@)
        } by {
            assert(b.contains_key(ContributionKey { child, who }));
        }
    }
}

/// Where entries are left although only the first were to be taken, as many were taken as
/// the limit.
proof fn some_left(
    before: Map<ContributionKey<Seq<u8>>, Contribution<Seq<u8>>>,
    after: Map<ContributionKey<Seq<u8>>, Contribution<Seq<u8>>>,
    child: Seq<u8>,
    visited: Seq<AccountId>,
    limit: int,
)
    requires
        first_in(before, child, visited, limit),
        taken_out(before, after, child, visited),
        !is_empty(after, child),
    ensures
        visited.len() == limit,
{
    let who = choose|who: AccountId| #[trigger] after.contains_key(ContributionKey { child, who });
    assert(before.contains_key(ContributionKey { child, who }));
}

/// The three walks of a refund, and the kind and the account at which it is stuck where it
/// is.
pub struct Refund<T> {
    pub contributed: Walk<T>,
    pub flying: Walk<T>,
    pub pending: Walk<T>,
    pub stuck_kind: ChildStorageKind,
    pub stuck: AccountId,
}

/// A walk that comes to no account.
spec fn no_walk<T>(start: T) -> Walk<T> {
    Walk { visited: Seq::empty(), steps: seq![start] }
}

/// A walk that may come to no account.
proof fn no_walk_goes<T: Config>(start: T, state: State, vault: Vault, kind: ChildStorageKind)
    ensures
        payments_made(no_walk(start), start, state, vault, kind),
        first_in(
            state.contributions,
            child_id::<T>(vault.trie_index, kind),
            no_walk(start).visited,
            0,
        ),
        sum_in(
            state.contributions,
            child_id::<T>(vault.trie_index, kind),
            no_walk(start).visited,
        ) == 0,
{
}

/// A refund of all kinds.
proof fn refunding_all<T: Config>(world: World<T>, vault: Vault) -> (r: Refund<T>)
    requires
        world.state.entries_positive(),
        collision_free::<T>(),
    ensures
        ({
            let cc = child_id::<T>(vault.trie_index, ChildStorageKind::Contributed);
            let cf = child_id::<T>(vault.trie_index, ChildStorageKind::Flying);
            let cp = child_id::<T>(vault.trie_index, ChildStorageKind::Pending);
            let (c, f, p) = (r.contributed, r.flying, r.pending);
            let limit = T::spec_constants().remove_keys_limit as int;
            let s = world.state;
            let m = s.contributions;
            let (after, changed, result) = world.refund_all(vault);
            let n = after.state.contributions;
            &&& payments_made(c, world.runtime, s, vault, ChildStorageKind::Contributed)
            &&& payments_made(f, c.steps.last(), s, vault, ChildStorageKind::Flying)
            &&& payments_made(p, f.steps.last(), s, vault, ChildStorageKind::Pending)
            &&& result is Ok ==> {
                &&& first_in(m, cc, c.visited, limit)
                &&& first_in(m, cf, f.visited, limit - c.visited.len())
                &&& first_in(m, cp, p.visited, limit - c.visited.len() - f.visited.len())
                &&& after.runtime == p.steps.last()
                &&& forall|k: ContributionKey<Seq<u8>>|
                    {
                        &&& #[trigger] n.contains_key(k) <==> m.contains_key(k) && !(k.child == cc
                            && c.visited.contains(k.who)) && !(k.child == cf && f.visited.contains(
                            k.who,
                        )) && !(k.child == cp && p.visited.contains(k.who))
                        &&& n.contains_key(k) ==> n[k] == m[k]
                    }
                &&& after.state == (State { contributions: n, ..s })
                &&& changed.contributed == vault.contributed - sum_in(m, cc, c.visited)
                &&& changed.flying == vault.flying - sum_in(m, cf, f.visited)
                &&& changed.pending == vault.pending - sum_in(m, cp, p.visited)
                &&& changed == (Vault {
                    contributed: changed.contributed,
                    flying: changed.flying,
                    pending: changed.pending,
                    ..vault
                })
                &&& result->Ok_0 <==> is_empty(n, cc) && is_empty(n, cf) && is_empty(n, cp)
            }
            &&& result is Err ==> match r.stuck_kind {
                ChildStorageKind::Contributed => refund_stuck(
                    c,
                    s,
                    vault,
                    ChildStorageKind::Contributed,
                    r.stuck,
                    limit,
                    result->Err_0,
                ),
                ChildStorageKind::Flying => {
                    &&& first_in(m, cc, c.visited, limit)
                    &&& refund_stuck(
                        f,
                        s,
                        vault,
                        ChildStorageKind::Flying,
                        r.stuck,
                        limit - c.visited.len(),
                        result->Err_0,
                    )
                },
                ChildStorageKind::Pending => {
                    &&& first_in(m, cc, c.visited, limit)
                    &&& first_in(m, cf, f.visited, limit - c.visited.len())
                    &&& refund_stuck(
                        p,
                        s,
                        vault,
                        ChildStorageKind::Pending,
                        r.stuck,
                        limit - c.visited.len() - f.visited.len(),
                        result->Err_0,
                    )
                },
            }
        }),
{
    let cc = child_id::<T>(vault.trie_index, ChildStorageKind::Contributed);
    let cf = child_id::<T>(vault.trie_index, ChildStorageKind::Flying);
    let cp = child_id::<T>(vault.trie_index, ChildStorageKind::Pending);
    assert(cc != cf && cf != cp && cc != cp);
    let limit = T::spec_constants().remove_keys_limit as int;
    let s = world.state;
    let (c, stuck_c) = refunding_from::<T>(world, vault, ChildStorageKind::Contributed, None, 0);
    let (w1, v1, r1) = world.refund_from(vault, ChildStorageKind::Contributed, None, 0);
    no_walk_goes::<T>(c.steps.last(), s, vault, ChildStorageKind::Flying);
    no_walk_goes::<T>(c.steps.last(), s, vault, ChildStorageKind::Pending);
    if r1 is Err || !r1->Ok_0.1 {
        let none = no_walk(c.steps.last());
        if r1 is Ok {
            some_left(s.contributions, w1.state.contributions, cc, c.visited, limit);
        }
        Refund {
            contributed: c,
            flying: none,
            pending: none,
            stuck_kind: ChildStorageKind::Contributed,
            stuck: stuck_c,
        }
    } else {
        let count = r1->Ok_0.0;
        let (f, stuck_f) = refunding_from::<T>(w1, v1, ChildStorageKind::Flying, None, count);
        let (w2, v2, r2) = w1.refund_from(v1, ChildStorageKind::Flying, None, count);
        assert(same_trie(s.contributions, w1.state.contributions, cf));
        assert(same_trie(s.contributions, w1.state.contributions, cp));
        let left = limit - c.visited.len();
        same_walk::<T>(
            f,
            c.steps.last(),
            s,
            w1.state,
            vault,
            v1,
            ChildStorageKind::Flying,
            left,
        );
        no_walk_goes::<T>(f.steps.last(), s, vault, ChildStorageKind::Pending);
        if r2 is Err || !r2->Ok_0.1 {
            if r2 is Ok {
                some_left(w1.state.contributions, w2.state.contributions, cf, f.visited, left);
            }
            Refund {
                contributed: c,
                flying: f,
                pending: no_walk(f.steps.last()),
                stuck_kind: ChildStorageKind::Flying,
                stuck: stuck_f,
            }
        } else {
            let count = r2->Ok_0.0;
            let (p, stuck_p) = refunding_from::<T>(w2, v2, ChildStorageKind::Pending, None, count);
            let (w3, v3, r3) = w2.refund_from(v2, ChildStorageKind::Pending, None, count);
            assert(same_trie(s.contributions, w2.state.contributions, cp)) by {
                assert forall|who: AccountId| {
                    &&& #[trigger] s.contributions.contains_key(ContributionKey { child: cp, who })
                        <==> w2.state.contributions.contains_key(ContributionKey { child: cp, who })
                    &&& s.contributions.contains_key(ContributionKey { child: cp, who })
                        ==> s.contributions[ContributionKey { child: cp, who }]
                        == w2.state.contributions[ContributionKey { child: cp, who }]
                } by {
                    assert(w1.state.contributions.contains_key(ContributionKey { child: cp, who })
                        <==> w2.state.contributions.contains_key(
                        ContributionKey { child: cp, who },
                    ));
                }
            }
            same_walk::<T>(
                p,
                f.steps.last(),
                s,
                w2.state,
                vault,
                v2,
                ChildStorageKind::Pending,
                left - f.visited.len(),
            );
            if r3 is Ok {
                let n = w3.state.contributions;
                assert forall|k: ContributionKey<Seq<u8>>| {
                    &&& #[trigger] n.contains_key(k) <==> s.contributions.contains_key(k) && !(
                    k.child == cc && c.visited.contains(k.who)) && !(k.child == cf
                        && f.visited.contains(k.who)) && !(k.child == cp && p.visited.contains(
                        k.who,
                    ))
                    &&& n.contains_key(k) ==> n[k] == s.contributions[k]
                } by {
                    assert(w2.state.contributions.contains_key(k)
                        <==> w1.state.contributions.contains_key(k) && !(k.child == cf
                        && f.visited.contains(k.who)));
                    assert(w1.state.contributions.contains_key(k) <==> s.contributions.contains_key(
                        k,
                    ) && !(k.child == cc && c.visited.contains(k.who)));
                }
                assert(is_empty(n, cc)) by {
                    assert forall|who: AccountId| !#[trigger]
                        n.contains_key(ContributionKey { child: cc, who }) by {
                        assert(!w1.state.contributions.contains_key(
                            ContributionKey { child: cc, who },
                        ));
                    }
                }
                assert(is_empty(n, cf)) by {
                    assert forall|who: AccountId| !#[trigger]
                        n.contains_key(ContributionKey { child: cf, who }) by {
                        assert(!w2.state.contributions.contains_key(
                            ContributionKey { child: cf, who },
                        ));
                    }
                }
            }
            Refund {
                contributed: c,
                flying: f,
                pending: p,
                stuck_kind: ChildStorageKind::Pending,
                stuck: stuck_p,
            }
        }
    }
}

/// A refund that succeeds was asked for by an origin that may, of a vault that is closed or
/// failed. It gives back contributions in the order of their kinds, the confirmed ones
/// first, then those on their way, then those held back, and of each kind the first, until
/// all are given back or as many as one call may. Their entries are gone, the vault counts
/// as much less, and the call says whether any is left. Nothing else changes.
pub proof fn refunding<T: Config>(
    world: World<T>,
    origin: Origin<T::OtherOrigin>,
    crowdloan: ParaId,
    lease_start: LeasePeriod,
    lease_end: LeasePeriod,
) -> (r: Refund<T>)
    requires
        in_order::<T>(world.state),
        collision_free::<T>(),
        world.refund(origin, crowdloan, lease_start, lease_end).1 is Ok,
    ensures
        ({
            let start = world.runtime.spec_start_transaction();
            let s = world.state;
            let key = (crowdloan, lease_start, lease_end);
            let id = (lease_start, lease_end);
            let v = s.vaults[key];
            let cc = child_id::<T>(v.trie_index, ChildStorageKind::Contributed);
            let cf = child_id::<T>(v.trie_index, ChildStorageKind::Flying);
            let cp = child_id::<T>(v.trie_index, ChildStorageKind::Pending);
            let (c, f, p) = (r.contributed, r.flying, r.pending);
            let limit = T::spec_constants().remove_keys_limit as int;
            let m = s.contributions;
            let after = world.refund(origin, crowdloan, lease_start, lease_end).0;
            let n = after.state.contributions;
            let changed = after.state.vaults[key];
            &&& may(start, RequiredOrigin::RefundOrigin, origin)
            &&& s.vaults.contains_key(key)
            &&& v.phase == VaultPhase::Closed || v.phase == VaultPhase::Failed
            &&& first_in(m, cc, c.visited, limit)
            &&& first_in(m, cf, f.visited, limit - c.visited.len())
            &&& first_in(m, cp, p.visited, limit - c.visited.len() - f.visited.len())
            &&& payments_made(c, start, s, v, ChildStorageKind::Contributed)
            &&& payments_made(f, c.steps.last(), s, v, ChildStorageKind::Flying)
            &&& payments_made(p, f.steps.last(), s, v, ChildStorageKind::Pending)
            &&& after.runtime == p.steps.last().spec_commit_transaction()
            &&& forall|k: ContributionKey<Seq<u8>>|
                {
                    &&& #[trigger] n.contains_key(k) <==> m.contains_key(k) && !(k.child == cc
                        && c.visited.contains(k.who)) && !(k.child == cf && f.visited.contains(
                        k.who,
                    )) && !(k.child == cp && p.visited.contains(k.who))
                    &&& n.contains_key(k) ==> n[k] == m[k]
                }
            &&& changed.contributed == v.contributed - sum_in(m, cc, c.visited)
            &&& changed.flying == v.flying - sum_in(m, cf, f.visited)
            &&& changed.pending == v.pending - sum_in(m, cp, p.visited)
            &&& after.state == (State {
                contributions: n,
                vaults: s.vaults.insert(
                    key,
                    Vault {
                        contributed: changed.contributed,
                        flying: changed.flying,
                        pending: changed.pending,
                        ..v
                    },
                ),
                events: s.events.push(
                    if is_empty(n, cc) && is_empty(n, cf) && is_empty(n, cp) {
                        Event::AllRefunded(crowdloan, id)
                    } else {
                        Event::PartiallyRefunded(crowdloan, id)
                    },
                ),
                ..s
            })
        }),
{
    let v = world.state.vaults[(crowdloan, lease_start, lease_end)];
    refunding_all::<T>(world.begun(), v)
}

/// A refund that fails leaves the pallet as it was and says why: the origin may not, there
/// is no vault, the vault is in another phase, or what the first account that cannot be
/// served has cannot be given back.
pub proof fn refunding_fails<T: Config>(
    world: World<T>,
    origin: Origin<T::OtherOrigin>,
    crowdloan: ParaId,
    lease_start: LeasePeriod,
    lease_end: LeasePeriod,
) -> (r: Refund<T>)
    requires
        in_order::<T>(world.state),
        collision_free::<T>(),
        world.refund(origin, crowdloan, lease_start, lease_end).1 is Err,
    ensures
        ({
            let start = world.runtime.spec_start_transaction();
            let s = world.state;
            let key = (crowdloan, lease_start, lease_end);
            let v = s.vaults[key];
            let cc = child_id::<T>(v.trie_index, ChildStorageKind::Contributed);
            let cf = child_id::<T>(v.trie_index, ChildStorageKind::Flying);
            let (c, f, p) = (r.contributed, r.flying, r.pending);
            let limit = T::spec_constants().remove_keys_limit as int;
            let m = s.contributions;
            let (after, result) = world.refund(origin, crowdloan, lease_start, lease_end);
            let error = result->Err_0;
            &&& after.state == s
            &&& if !may(start, RequiredOrigin::RefundOrigin, origin) {
                error == CallError::BadOrigin
            } else if !s.vaults.contains_key(key) {
                error == CallError::Module(Error::VaultDoesNotExist)
            } else if v.phase != VaultPhase::Closed && v.phase != VaultPhase::Failed {
                error == CallError::Module(Error::IncorrectVaultPhase)
            } else {
                &&& payments_made(c, start, s, v, ChildStorageKind::Contributed)
                &&& payments_made(f, c.steps.last(), s, v, ChildStorageKind::Flying)
                &&& payments_made(p, f.steps.last(), s, v, ChildStorageKind::Pending)
                &&& match r.stuck_kind {
                    ChildStorageKind::Contributed => refund_stuck(
                        c,
                        s,
                        v,
                        ChildStorageKind::Contributed,
                        r.stuck,
                        limit,
                        error,
                    ),
                    ChildStorageKind::Flying => {
                        &&& first_in(m, cc, c.visited, limit)
                        &&& refund_stuck(
                            f,
                            s,
                            v,
                            ChildStorageKind::Flying,
                            r.stuck,
                            limit - c.visited.len(),
                            error,
                        )
                    },
                    ChildStorageKind::Pending => {
                        &&& first_in(m, cc, c.visited, limit)
                        &&& first_in(m, cf, f.visited, limit - c.visited.len())
                        &&& refund_stuck(
                            p,
                            s,
                            v,
                            ChildStorageKind::Pending,
                            r.stuck,
                            limit - c.visited.len() - f.visited.len(),
                            error,
                        )
                    },
                }
            }
        }),
{
    let v = world.state.vaults[(crowdloan, lease_start, lease_end)];
    refunding_all::<T>(world.begun(), v)
}

} // verus!
