//! Switching many lights or groups on or off, one after the other, stopping
//! at the first failure.
use crate::groups::{decoded_group, decoded_groups, group_action_path, group_path, Group, GroupModel};
use crate::lights::{decoded_light, decoded_lights, light_path, light_state_path, state_body, Light, LightModel};
use crate::state::StateModel;
use crate::text::{parse_unsigned, unsigned_of};
use crate::{
    added, call_is, concat_all, extends, lemma_chain, lemma_same, Exchange, HTTPClient, HueError,
    Method, Res,
};
use vstd::prelude::*;

verus! {

/// The values of some lights.
pub open spec fn light_models(ls: Seq<Light>) -> Seq<LightModel> {
    ls.map_values(|l: Light| l@)
}

/// The values of some groups.
pub open spec fn group_models(gs: Seq<Group>) -> Seq<GroupModel> {
    gs.map_values(|g: Group| g@)
}

/// The outcomes of a batch over `n` targets that handled them in order and
/// stopped at the first failure: every outcome but the last succeeded, the
/// batch stopped before the end only at a failure, and it reports that
/// failure, or success.
pub open spec fn stops_at_first_failure(n: nat, outcomes: Seq<Res<()>>, r: Res<()>) -> bool {
    &&& outcomes.len() <= n
    &&& forall|i: int| 0 <= i < outcomes.len() - 1 ==> (#[trigger] outcomes[i]) is Ok
    &&& outcomes.len() < n ==> outcomes.len() > 0 && outcomes.last() is Err
    &&& r == if outcomes.len() > 0 && outcomes.last() is Err {
        outcomes.last()
    } else {
        Ok::<(), HueError>(())
    }
}

/// When the `k`-th target of a batch that stops at the first failure fails,
/// after the first `k - 1` succeeded, exactly `k` targets were handled and
/// the batch reports that failure.
pub proof fn lemma_fail_fast(n: nat, outcomes: Seq<Res<()>>, r: Res<()>, k: nat)
    requires
        stops_at_first_failure(n, outcomes, r),
        1 <= k <= outcomes.len(),
        outcomes[k - 1] is Err,
    ensures
        outcomes.len() == k,
        r == outcomes[k - 1],
{
    if k < outcomes.len() {
        assert(outcomes[k - 1] is Ok);
    }
}

/// The exchanges `xs` of writing state `s` to light `id` and then fetching the
/// light again, as far as the write got; `o` is the first failure, or success.
pub open spec fn light_write_run(xs: Seq<Exchange>, id: u8, s: StateModel, o: Res<()>) -> bool {
    &&& xs.len() >= 1
    &&& call_is(xs[0], Method::Put, light_state_path(id), Some(state_body(s)))
    &&& match xs[0].reply {
        Err(e) => xs.len() == 1 && o == Err::<(), HueError>(e),
        Ok(_) => xs.len() == 2 && call_is(xs[1], Method::Get, light_path(id), None) && o == match xs[1].reply {
            Err(e) => Err::<(), HueError>(e),
            Ok(b) => if decoded_light(b@, id) is Some {
                Ok(())
            } else {
                Err(HueError::Decode)
            },
        },
    }
}

/// The exchanges `xs` and outcome `o` of switching the light named by `t`:
/// none and a decode failure when `t` is not an identifier; else one fetch
/// of the light, and, when that gives a light, the write of its state with the
/// power set, and a fetch.
pub open spec fn light_power_run(t: Seq<char>, power: bool, xs: Seq<Exchange>, o: Res<()>) -> bool {
    match unsigned_of(t, 255) {
        None => xs.len() == 0 && o == Err::<(), HueError>(HueError::Decode),
        Some(n) => {
            &&& xs.len() >= 1
            &&& call_is(xs[0], Method::Get, light_path(n as u8), None)
            &&& match xs[0].reply {
                Err(e) => xs.len() == 1 && o == Err::<(), HueError>(e),
                Ok(b) => match decoded_light(b@, n as u8) {
                    None => xs.len() == 1 && o == Err::<(), HueError>(HueError::Decode),
                    Some(m) => light_write_run(
                        xs.skip(1),
                        n as u8,
                        StateModel { on: Some(power), ..m.state },
                        o,
                    ),
                },
            }
        },
    }
}

/// A batch over the named lights: the exchanges `xs` fall into one chunk
/// per light handled, in order, each with its outcome, and the batch stopped
/// at the first failure.
pub open spec fn lights_batch(
    targets: Seq<String>,
    power: bool,
    xs: Seq<Exchange>,
    r: Res<()>,
    chunks: Seq<Seq<Exchange>>,
    outcomes: Seq<Res<()>>,
) -> bool {
    &&& chunks.len() == outcomes.len()
    &&& xs == concat_all(chunks)
    &&& stops_at_first_failure(targets.len(), outcomes, r)
    &&& forall|i: int|
        0 <= i < chunks.len() ==> light_power_run((#[trigger] targets[i])@, power, chunks[i], outcomes[i])
}

/// A batch over fetched lights: one chunk of exchanges per light handled, in
/// order, each the write of its state with the power set and a fetch; the
/// batch stopped at the first failure.
pub open spec fn listed_lights_batch(
    listed: Seq<LightModel>,
    power: bool,
    xs: Seq<Exchange>,
    r: Res<()>,
    chunks: Seq<Seq<Exchange>>,
    outcomes: Seq<Res<()>>,
) -> bool {
    &&& chunks.len() == outcomes.len()
    &&& xs == concat_all(chunks)
    &&& stops_at_first_failure(listed.len(), outcomes, r)
    &&& forall|i: int|
        0 <= i < chunks.len() ==> light_write_run(
            chunks[i],
            (#[trigger] listed[i]).id->0,
            StateModel { on: Some(power), ..listed[i].state },
            outcomes[i],
        )
}

/// Switches the light named by `target` (its decimal identifier) on or
/// off: it is fetched, its power set, and its state written back.
pub fn light_power<C: HTTPClient>(client: &mut C, target: &str, power: bool) -> (r: Res<()>)
    ensures
        extends(old(client).exchanges(), final(client).exchanges()),
        light_power_run(target@, power, added(old(client).exchanges(), final(client).exchanges()), r),
{
    let ghost x = client.exchanges();
    let id = match parse_unsigned(target, 255) {
        Some(n) => n as u8,
        None => {
            proof {
                lemma_same(x);
            }
            return Err(HueError::Decode);
        },
    };
    let mut item = match Light::get_light(client, id) {
        Ok(l) => l,
        Err(e) => return Err(e),
    };
    let ghost y1 = client.exchanges();
    item.state().set_on(power);
    let written = item.update_state(client);
    proof {
        let y2 = client.exchanges();
        lemma_chain(x, y1, y2);
        assert(added(x, y2).skip(1) =~= added(y1, y2));
    }
    match written {
        Ok(_) => Ok(()),
        Err(e) => Err(e),
    }
}

/// Switches the named lights on or off in order, stopping at the first
/// target that fails; the result is that failure, or success.
pub fn lights_power<C: HTTPClient>(client: &mut C, targets: &Vec<String>, power: bool) -> (r: Res<()>)
    ensures
        extends(old(client).exchanges(), final(client).exchanges()),
        exists|chunks: Seq<Seq<Exchange>>, outcomes: Seq<Res<()>>|
            #[trigger] lights_batch(
                targets@,
                power,
                added(old(client).exchanges(), final(client).exchanges()),
                r,
                chunks,
                outcomes,
            ),
        targets@.len() == 0 ==> *final(client) == *old(client),
{
    let ghost x = client.exchanges();
    let ghost mut chunks: Seq<Seq<Exchange>> = Seq::empty();
    let ghost mut outcomes: Seq<Res<()>> = Seq::empty();
    proof {
        lemma_same(x);
    }
    let mut i: usize = 0;
    while i < targets.len()
        invariant
            0 <= i <= targets@.len(),
            outcomes.len() == i,
            chunks.len() == i,
            extends(x, client.exchanges()),
            added(x, client.exchanges()) == concat_all(chunks),
            forall|j: int| 0 <= j < i ==> (#[trigger] outcomes[j]) is Ok,
            forall|j: int|
                0 <= j < i ==> light_power_run((#[trigger] targets@[j])@, power, chunks[j], outcomes[j]),
            x == old(client).exchanges(),
            targets@.len() == 0 ==> *client == *old(client),
        decreases targets@.len() - i,
    {
        let ghost y = client.exchanges();
        let o = light_power(client, targets[i].as_str(), power);
        proof {
            let z = client.exchanges();
            lemma_chain(x, y, z);
            let c = added(y, z);
            assert(chunks.push(c).drop_last() =~= chunks);
            chunks = chunks.push(c);
            outcomes = outcomes.push(o);
        }
        if let Err(e) = o {
            assert(lights_batch(targets@, power, added(x, client.exchanges()), Err(e), chunks, outcomes));
            return Err(e);
        }
        i = i + 1;
    }
    assert(lights_batch(targets@, power, added(x, client.exchanges()), Ok(()), chunks, outcomes));
    Ok(())
}

/// Switches the given fetched lights on or off in order, writing each one's
/// state back, and stops at the first write that fails.
pub fn listed_lights_power<C: HTTPClient>(client: &mut C, listed: Vec<Light>, power: bool) -> (r: Res<()>)
    requires
        forall|i: int| 0 <= i < listed@.len() ==> (#[trigger] listed@[i])@.id is Some,
    ensures
        extends(old(client).exchanges(), final(client).exchanges()),
        exists|chunks: Seq<Seq<Exchange>>, outcomes: Seq<Res<()>>|
            #[trigger] listed_lights_batch(
                light_models(listed@),
                power,
                added(old(client).exchanges(), final(client).exchanges()),
                r,
                chunks,
                outcomes,
            ),
        listed@.len() == 0 ==> r == Ok::<(), HueError>(()) && *final(client) == *old(client),
{
    let ghost x = client.exchanges();
    let ghost ms = light_models(listed@);
    let ghost n = listed@.len();
    let mut items = listed;
    let ghost mut chunks: Seq<Seq<Exchange>> = Seq::empty();
    let ghost mut outcomes: Seq<Res<()>> = Seq::empty();
    proof {
        lemma_same(x);
    }
    while items.len() > 0
        invariant
            ms == light_models(listed@),
            n == ms.len(),
            outcomes.len() + items@.len() == n,
            chunks.len() == outcomes.len(),
            forall|k: int| 0 <= k < items@.len() ==> (#[trigger] items@[k])@ == ms[outcomes.len() + k],
            forall|k: int| 0 <= k < n ==> (#[trigger] ms[k]).id is Some,
            extends(x, client.exchanges()),
            added(x, client.exchanges()) == concat_all(chunks),
            forall|j: int| 0 <= j < outcomes.len() ==> (#[trigger] outcomes[j]) is Ok,
            forall|j: int|
                0 <= j < chunks.len() ==> light_write_run(
                    chunks[j],
                    (#[trigger] ms[j]).id->0,
                    StateModel { on: Some(power), ..ms[j].state },
                    outcomes[j],
                ),
            x == old(client).exchanges(),
            n == 0 ==> *client == *old(client),
        decreases items@.len(),
    {
        let ghost y = client.exchanges();
        let ghost i = outcomes.len() as int;
        let mut item = items.remove(0);
        assert(item@ == ms[i]);
        item.state().set_on(power);
        let written = item.update_state(client);
        let o = match written {
            Ok(_) => Ok(()),
            Err(e) => Err(e),
        };
        proof {
            let z = client.exchanges();
            lemma_chain(x, y, z);
            let c = added(y, z);
            assert(chunks.push(c).drop_last() =~= chunks);
            chunks = chunks.push(c);
            outcomes = outcomes.push(o);
        }
        if let Err(e) = o {
            assert(listed_lights_batch(ms, power, added(x, client.exchanges()), Err(e), chunks, outcomes));
            return Err(e);
        }
    }
    assert(listed_lights_batch(ms, power, added(x, client.exchanges()), Ok(()), chunks, outcomes));
    Ok(())
}

/// Switches every light the bridge lists on or off, in the listing's
/// order: one GET of `lights`, then the batch over what it lists.
pub fn all_lights_power<C: HTTPClient>(client: &mut C, power: bool) -> (r: Res<()>)
    ensures
        extends(old(client).exchanges(), final(client).exchanges()),
        ({
            let xs = added(old(client).exchanges(), final(client).exchanges());
            &&& xs.len() >= 1
            &&& call_is(xs[0], Method::Get, "lights"@, None)
            &&& match xs[0].reply {
                Err(e) => xs.len() == 1 && r == Err::<(), HueError>(e),
                Ok(b) => match decoded_lights(b@) {
                    None => xs.len() == 1 && r == Err::<(), HueError>(HueError::Decode),
                    Some(ms) => exists|chunks: Seq<Seq<Exchange>>, outcomes: Seq<Res<()>>|
                        #[trigger] listed_lights_batch(ms, power, xs.skip(1), r, chunks, outcomes),
                },
            }
        }),
{
    let ghost x = client.exchanges();
    let listing = Light::get_lights(client);
    let ghost y1 = client.exchanges();
    match listing {
        Ok(items) => {
            let ghost ms = light_models(items@);
            proof {
                let reply = added(x, y1)[0].reply;
                assert(ms =~= decoded_lights(reply->Ok_0@)->0);
            }
            let r = listed_lights_power(client, items, power);
            proof {
                let y2 = client.exchanges();
                lemma_chain(x, y1, y2);
                assert(added(x, y2).skip(1) =~= added(y1, y2));
            }
            r
        },
        Err(e) => Err(e),
    }
}

/// The exchanges `xs` of writing state `s` to group `id` and then fetching the
/// group again, as far as the write got; `o` is the first failure, or success.
pub open spec fn group_write_run(xs: Seq<Exchange>, id: u8, s: StateModel, o: Res<()>) -> bool {
    &&& xs.len() >= 1
    &&& call_is(xs[0], Method::Put, group_action_path(id), Some(state_body(s)))
    &&& match xs[0].reply {
        Err(e) => xs.len() == 1 && o == Err::<(), HueError>(e),
        Ok(_) => xs.len() == 2 && call_is(xs[1], Method::Get, group_path(id), None) && o == match xs[1].reply {
            Err(e) => Err::<(), HueError>(e),
            Ok(b) => if decoded_group(b@, Some(id)) is Some {
                Ok(())
            } else {
                Err(HueError::Decode)
            },
        },
    }
}

/// The exchanges `xs` and outcome `o` of switching the group named by `t`:
/// none and a decode failure when `t` is not an identifier; else one fetch
/// of the group, and, when that gives a group, the write of its action with the
/// power set, and a fetch.
pub open spec fn group_power_run(t: Seq<char>, power: bool, xs: Seq<Exchange>, o: Res<()>) -> bool {
    match unsigned_of(t, 255) {
        None => xs.len() == 0 && o == Err::<(), HueError>(HueError::Decode),
        Some(n) => {
            &&& xs.len() >= 1
            &&& call_is(xs[0], Method::Get, group_path(n as u8), None)
            &&& match xs[0].reply {
                Err(e) => xs.len() == 1 && o == Err::<(), HueError>(e),
                Ok(b) => match decoded_group(b@, Some(n as u8)) {
                    None => xs.len() == 1 && o == Err::<(), HueError>(HueError::Decode),
                    Some(m) => group_write_run(
                        xs.skip(1),
                        n as u8,
                        StateModel { on: Some(power), ..m.action },
                        o,
                    ),
                },
            }
        },
    }
}

/// A batch over the named groups: the exchanges `xs` fall into one chunk
/// per group handled, in order, each with its outcome, and the batch stopped
/// at the first failure.
pub open spec fn groups_batch(
    targets: Seq<String>,
    power: bool,
    xs: Seq<Exchange>,
    r: Res<()>,
    chunks: Seq<Seq<Exchange>>,
    outcomes: Seq<Res<()>>,
) -> bool {
    &&& chunks.len() == outcomes.len()
    &&& xs == concat_all(chunks)
    &&& stops_at_first_failure(targets.len(), outcomes, r)
    &&& forall|i: int|
        0 <= i < chunks.len() ==> group_power_run((#[trigger] targets[i])@, power, chunks[i], outcomes[i])
}

/// A batch over fetched groups: one chunk of exchanges per group handled, in
/// order, each the write of its action with the power set and a fetch; the
/// batch stopped at the first failure.
pub open spec fn listed_groups_batch(
    listed: Seq<GroupModel>,
    power: bool,
    xs: Seq<Exchange>,
    r: Res<()>,
    chunks: Seq<Seq<Exchange>>,
    outcomes: Seq<Res<()>>,
) -> bool {
    &&& chunks.len() == outcomes.len()
    &&& xs == concat_all(chunks)
    &&& stops_at_first_failure(listed.len(), outcomes, r)
    &&& forall|i: int|
        0 <= i < chunks.len() ==> group_write_run(
            chunks[i],
            (#[trigger] listed[i]).id->0,
            StateModel { on: Some(power), ..listed[i].action },
            outcomes[i],
        )
}

/// Switches the group named by `target` (its decimal identifier) on or
/// off: it is fetched, its power set, and its action written back.
pub fn group_power<C: HTTPClient>(client: &mut C, target: &str, power: bool) -> (r: Res<()>)
    ensures
        extends(old(client).exchanges(), final(client).exchanges()),
        group_power_run(target@, power, added(old(client).exchanges(), final(client).exchanges()), r),
{
    let ghost x = client.exchanges();
    let id = match parse_unsigned(target, 255) {
        Some(n) => n as u8,
        None => {
            proof {
                lemma_same(x);
            }
            return Err(HueError::Decode);
        },
    };
    let mut item = match Group::get_group(client, id) {
        Ok(l) => l,
        Err(e) => return Err(e),
    };
    let ghost y1 = client.exchanges();
    item.action().set_on(power);
    let written = item.update_state(client);
    proof {
        let y2 = client.exchanges();
        lemma_chain(x, y1, y2);
        assert(added(x, y2).skip(1) =~= added(y1, y2));
    }
    match written {
        Ok(_) => Ok(()),
        Err(e) => Err(e),
    }
}

/// Switches the named groups on or off in order, stopping at the first
/// target that fails; the result is that failure, or success.
pub fn groups_power<C: HTTPClient>(client: &mut C, targets: &Vec<String>, power: bool) -> (r: Res<()>)
    ensures
        extends(old(client).exchanges(), final(client).exchanges()),
        exists|chunks: Seq<Seq<Exchange>>, outcomes: Seq<Res<()>>|
            #[trigger] groups_batch(
                targets@,
                power,
                added(old(client).exchanges(), final(client).exchanges()),
                r,
                chunks,
                outcomes,
            ),
        targets@.len() == 0 ==> *final(client) == *old(client),
{
    let ghost x = client.exchanges();
    let ghost mut chunks: Seq<Seq<Exchange>> = Seq::empty();
    let ghost mut outcomes: Seq<Res<()>> = Seq::empty();
    proof {
        lemma_same(x);
    }
    let mut i: usize = 0;
    while i < targets.len()
        invariant
            0 <= i <= targets@.len(),
            outcomes.len() == i,
            chunks.len() == i,
            extends(x, client.exchanges()),
            added(x, client.exchanges()) == concat_all(chunks),
            forall|j: int| 0 <= j < i ==> (#[trigger] outcomes[j]) is Ok,
            forall|j: int|
                0 <= j < i ==> group_power_run((#[trigger] targets@[j])@, power, chunks[j], outcomes[j]),
            x == old(client).exchanges(),
            targets@.len() == 0 ==> *client == *old(client),
        decreases targets@.len() - i,
    {
        let ghost y = client.exchanges();
        let o = group_power(client, targets[i].as_str(), power);
        proof {
            let z = client.exchanges();
            lemma_chain(x, y, z);
            let c = added(y, z);
            assert(chunks.push(c).drop_last() =~= chunks);
            chunks = chunks.push(c);
            outcomes = outcomes.push(o);
        }
        if let Err(e) = o {
            assert(groups_batch(targets@, power, added(x, client.exchanges()), Err(e), chunks, outcomes));
            return Err(e);
        }
        i = i + 1;
    }
    assert(groups_batch(targets@, power, added(x, client.exchanges()), Ok(()), chunks, outcomes));
    Ok(())
}

/// Switches the given fetched groups on or off in order, writing each one's
/// action back, and stops at the first write that fails.
pub fn listed_groups_power<C: HTTPClient>(client: &mut C, listed: Vec<Group>, power: bool) -> (r: Res<()>)
    requires
        forall|i: int| 0 <= i < listed@.len() ==> (#[trigger] listed@[i])@.id is Some,
    ensures
        extends(old(client).exchanges(), final(client).exchanges()),
        exists|chunks: Seq<Seq<Exchange>>, outcomes: Seq<Res<()>>|
            #[trigger] listed_groups_batch(
                group_models(listed@),
                power,
                added(old(client).exchanges(), final(client).exchanges()),
                r,
                chunks,
                outcomes,
            ),
        listed@.len() == 0 ==> r == Ok::<(), HueError>(()) && *final(client) == *old(client),
{
    let ghost x = client.exchanges();
    let ghost ms = group_models(listed@);
    let ghost n = listed@.len();
    let mut items = listed;
    let ghost mut chunks: Seq<Seq<Exchange>> = Seq::empty();
    let ghost mut outcomes: Seq<Res<()>> = Seq::empty();
    proof {
        lemma_same(x);
    }
    while items.len() > 0
        invariant
            ms == group_models(listed@),
            n == ms.len(),
            outcomes.len() + items@.len() == n,
            chunks.len() == outcomes.len(),
            forall|k: int| 0 <= k < items@.len() ==> (#[trigger] items@[k])@ == ms[outcomes.len() + k],
            forall|k: int| 0 <= k < n ==> (#[trigger] ms[k]).id is Some,
            extends(x, client.exchanges()),
            added(x, client.exchanges()) == concat_all(chunks),
            forall|j: int| 0 <= j < outcomes.len() ==> (#[trigger] outcomes[j]) is Ok,
            forall|j: int|
                0 <= j < chunks.len() ==> group_write_run(
                    chunks[j],
                    (#[trigger] ms[j]).id->0,
                    StateModel { on: Some(power), ..ms[j].action },
                    outcomes[j],
                ),
            x == old(client).exchanges(),
            n == 0 ==> *client == *old(client),
        decreases items@.len(),
    {
        let ghost y = client.exchanges();
        let ghost i = outcomes.len() as int;
        let mut item = items.remove(0);
        assert(item@ == ms[i]);
        item.action().set_on(power);
        let written = item.update_state(client);
        let o = match written {
            Ok(_) => Ok(()),
            Err(e) => Err(e),
        };
        proof {
            let z = client.exchanges();
            lemma_chain(x, y, z);
            let c = added(y, z);
            assert(chunks.push(c).drop_last() =~= chunks);
            chunks = chunks.push(c);
            outcomes = outcomes.push(o);
        }
        if let Err(e) = o {
            assert(listed_groups_batch(ms, power, added(x, client.exchanges()), Err(e), chunks, outcomes));
            return Err(e);
        }
    }
    assert(listed_groups_batch(ms, power, added(x, client.exchanges()), Ok(()), chunks, outcomes));
    Ok(())
}

/// Switches every group the bridge lists on or off, in the listing's
/// order: one GET of `groups`, then the batch over what it lists.
pub fn all_groups_power<C: HTTPClient>(client: &mut C, power: bool) -> (r: Res<()>)
    ensures
        extends(old(client).exchanges(), final(client).exchanges()),
        ({
            let xs = added(old(client).exchanges(), final(client).exchanges());
            &&& xs.len() >= 1
            &&& call_is(xs[0], Method::Get, "groups"@, None)
            &&& match xs[0].reply {
                Err(e) => xs.len() == 1 && r == Err::<(), HueError>(e),
                Ok(b) => match decoded_groups(b@) {
                    None => xs.len() == 1 && r == Err::<(), HueError>(HueError::Decode),
                    Some(ms) => exists|chunks: Seq<Seq<Exchange>>, outcomes: Seq<Res<()>>|
                        #[trigger] listed_groups_batch(ms, power, xs.skip(1), r, chunks, outcomes),
                },
            }
        }),
{
    let ghost x = client.exchanges();
    let listing = Group::get_groups(client);
    let ghost y1 = client.exchanges();
    match listing {
        Ok(items) => {
            let ghost ms = group_models(items@);
            proof {
                let reply = added(x, y1)[0].reply;
                assert(ms =~= decoded_groups(reply->Ok_0@)->0);
            }
            let r = listed_groups_power(client, items, power);
            proof {
                let y2 = client.exchanges();
                lemma_chain(x, y1, y2);
                assert(added(x, y2).skip(1) =~= added(y1, y2));
            }
            r
        },
        Err(e) => Err(e),
    }
}

} // verus!
