//! The automatic rollback guard: before a risky change the caller schedules
//! a revert; unless the user confirms within the delay, the revert command
//! runs when the timer fires.

use vstd::prelude::*;

use crate::status::{Code, Status};
use crate::text::{all_ws, eq_str, is_blank};

verus! {

/// The delay when the request gives none.
pub const DEFAULT_ROLLBACK_SECONDS: u32 = 30;
/// The longest delay accepted.
pub const MAX_ROLLBACK_SECONDS: u32 = 600;
/// Where pending actions are kept when no root is configured.
pub const DEFAULT_ROLLBACK_ROOT: &'static str = "/tmp/rustpanel/rollback";

/// A scheduled revert.
#[derive(Clone, Debug)]
pub struct StoredAction {
    pub action_id: String,
    pub title: String,
    pub description: String,
    pub revert_command: String,
    pub snapshot_json: String,
    pub scheduled_at_seconds: u64,
    pub expires_at_seconds: u64,
}

/// The delay of a request: the default for 0, else at most the maximum.
pub open spec fn rollback_delay_spec(requested: u32) -> u32 {
    if requested == 0 {
        DEFAULT_ROLLBACK_SECONDS
    } else if requested > MAX_ROLLBACK_SECONDS {
        MAX_ROLLBACK_SECONDS
    } else {
        requested
    }
}

pub fn rollback_delay(requested: u32) -> (r: u32)
    ensures
        r == rollback_delay_spec(requested),
{
    if requested == 0 {
        DEFAULT_ROLLBACK_SECONDS
    } else if requested > MAX_ROLLBACK_SECONDS {
        MAX_ROLLBACK_SECONDS
    } else {
        requested
    }
}

pub open spec fn other_action(id: Seq<char>) -> spec_fn(StoredAction) -> bool {
    |a: StoredAction| a.action_id@ != id
}

pub open spec fn has_action(actions: Seq<StoredAction>, id: Seq<char>) -> bool {
    exists|i: int| 0 <= i < actions.len() && (#[trigger] actions[i]).action_id@ == id
}

/// Removes the actions with `id`; returns the last one removed.
fn take_action(actions: &mut Vec<StoredAction>, id: &str) -> (r: Option<StoredAction>)
    ensures
        final(actions)@ == old(actions)@.filter(other_action(id@)),
        r is Some <==> has_action(old(actions)@, id@),
        r matches Some(a) ==> a.action_id@ == id@ && old(actions)@.contains(a),
{
    let ghost orig = actions@;
    let mut rest: Vec<StoredAction> = Vec::new();
    std::mem::swap(&mut rest, actions);
    let mut kept: Vec<StoredAction> = Vec::new();
    let mut found: Option<StoredAction> = None;
    let ghost mut i: int = 0;
    assert(orig.skip(0) == orig);
    assert(orig.take(0) == Seq::<StoredAction>::empty());
    while rest.len() > 0
        invariant
            0 <= i <= orig.len(),
            rest@ == orig.skip(i),
            kept@ == orig.take(i).filter(other_action(id@)),
            found is Some <==> has_action(orig.take(i), id@),
            found matches Some(a) ==> a.action_id@ == id@ && orig.contains(a),
        decreases rest.len(),
    {
        let a = rest.remove(0);
        proof {
            assert(a == orig[i]);
            assert(orig.take(i + 1) == orig.take(i).push(a));
            orig.take(i).lemma_filter_push(a, other_action(id@));
            assert(orig.skip(i + 1) == orig.skip(i).remove(0));
            if has_action(orig.take(i), id@) {
                let j = choose|j: int| 0 <= j < orig.take(i).len() && (#[trigger] orig.take(i)[j]).action_id@ == id@;
                assert(orig.take(i + 1)[j] == orig.take(i)[j]);
            }
            if a.action_id@ == id@ {
                assert(orig.take(i + 1)[i] == a);
            }
            if has_action(orig.take(i + 1), id@) && a.action_id@ != id@ {
                let j = choose|j: int| 0 <= j < orig.take(i + 1).len() && (#[trigger] orig.take(i + 1)[j]).action_id@ == id@;
                assert(orig.take(i)[j] == orig.take(i + 1)[j]);
            }
        }
        if eq_str(a.action_id.as_str(), id) {
            found = Some(a);
        } else {
            kept.push(a);
        }
        proof {
            i = i + 1;
        }
    }
    assert(orig.take(i) == orig);
    *actions = kept;
    found
}

/// The action that a schedule request makes: the given texts, scheduled
/// now and expiring after the delay of [`rollback_delay_spec`].
pub open spec fn scheduled_action(
    a: StoredAction,
    id: Seq<char>,
    title: Seq<char>,
    description: Seq<char>,
    revert_command: Seq<char>,
    snapshot_json: Seq<char>,
    requested_seconds: u32,
    now: u64,
) -> bool {
    &&& a.action_id@ == id
    &&& a.title@ == title
    &&& a.description@ == description
    &&& a.revert_command@ == revert_command
    &&& a.snapshot_json@ == snapshot_json
    &&& a.scheduled_at_seconds == now
    &&& a.expires_at_seconds == now + rollback_delay_spec(requested_seconds)
}

/// Schedules a revert under `action_id` at `now`. A blank title is refused
/// and nothing changes; otherwise the action replaces any with the same id.
pub fn schedule_with_id(
    actions: &mut Vec<StoredAction>,
    action_id: String,
    title: String,
    description: String,
    revert_command: String,
    snapshot_json: String,
    requested_seconds: u32,
    now: u64,
) -> (r: Result<StoredAction, Status>)
    requires
        now + MAX_ROLLBACK_SECONDS <= u64::MAX,
    ensures
        all_ws(title@) ==> (r matches Err(e) && e.code == Code::InvalidArgument && e.message@ == "title is required"@)
            && final(actions)@ == old(actions)@,
        !all_ws(title@) ==> (r matches Ok(a) && scheduled_action(a, action_id@, title@, description@,
            revert_command@, snapshot_json@, requested_seconds, now)
            && exists|stored: StoredAction| scheduled_action(stored, action_id@, title@, description@,
                revert_command@, snapshot_json@, requested_seconds, now)
                && final(actions)@ == (#[trigger] old(actions)@.filter(other_action(action_id@))).push(stored)),
{
    if is_blank(title.as_str()) {
        return Err(Status::invalid_argument("title is required"));
    }
    let after = rollback_delay(requested_seconds);
    let reply = StoredAction {
        action_id: action_id.clone(),
        title: title.clone(),
        description: description.clone(),
        revert_command: revert_command.clone(),
        snapshot_json: snapshot_json.clone(),
        scheduled_at_seconds: now,
        expires_at_seconds: now + after as u64,
    };
    let stored = StoredAction {
        action_id,
        title,
        description,
        revert_command,
        snapshot_json,
        scheduled_at_seconds: now,
        expires_at_seconds: now + after as u64,
    };
    let _ = take_action(actions, stored.action_id.as_str());
    actions.push(stored);
    Ok(reply)
}

/// Schedules a revert under a fresh random identifier.
pub fn schedule(
    actions: &mut Vec<StoredAction>,
    title: String,
    description: String,
    revert_command: String,
    snapshot_json: String,
    requested_seconds: u32,
    now: u64,
) -> (r: Result<StoredAction, Status>)
    requires
        now + MAX_ROLLBACK_SECONDS <= u64::MAX,
    ensures
        all_ws(title@) ==> (r matches Err(e) && e.code == Code::InvalidArgument && e.message@ == "title is required"@)
            && final(actions)@ == old(actions)@,
        !all_ws(title@) ==> (r matches Ok(a) && a.action_id@.len() == 32 && scheduled_action(a, a.action_id@, title@,
            description@, revert_command@, snapshot_json@, requested_seconds, now)
            && exists|stored: StoredAction| scheduled_action(stored, a.action_id@, title@, description@,
                revert_command@, snapshot_json@, requested_seconds, now)
                && final(actions)@ == (#[trigger] old(actions)@.filter(other_action(a.action_id@))).push(stored)),
{
    let id = crate::crypto::new_uuid_simple();
    schedule_with_id(actions, id, title, description, revert_command, snapshot_json, requested_seconds, now)
}

/// The user keeps the change: the action is removed, or the confirmation
/// is refused as not found.
pub fn confirm(actions: &mut Vec<StoredAction>, action_id: &str) -> (r: Result<(), Status>)
    ensures
        final(actions)@ == old(actions)@.filter(other_action(action_id@)),
        has_action(old(actions)@, action_id@) ==> r is Ok,
        !has_action(old(actions)@, action_id@) ==> (r matches Err(e) && e.code == Code::NotFound
            && e.message@ == "action_id not found"@),
{
    match take_action(actions, action_id) {
        Some(_) => Ok(()),
        None => Err(Status::new(Code::NotFound, "action_id not found")),
    }
}

/// The timer of an action fires: the action leaves the pending list, and
/// its revert command is returned to run unless it is blank (or the action
/// was already confirmed).
pub fn expire(actions: &mut Vec<StoredAction>, action_id: &str) -> (r: Option<String>)
    ensures
        final(actions)@ == old(actions)@.filter(other_action(action_id@)),
        !has_action(old(actions)@, action_id@) ==> r is None,
        r matches Some(c) ==> !all_ws(c@) && exists|a: StoredAction| #[trigger] old(actions)@.contains(a)
            && a.action_id@ == action_id@ && a.revert_command@ == c@,
        has_action(old(actions)@, action_id@) && (forall|a: StoredAction| #[trigger] old(actions)@.contains(a)
            && a.action_id@ == action_id@ ==> !all_ws(a.revert_command@)) ==> r is Some,
{
    match take_action(actions, action_id) {
        Some(a) => {
            if is_blank(a.revert_command.as_str()) {
                None
            } else {
                Some(a.revert_command)
            }
        },
        None => None,
    }
}

/// Pending actions in the order they expire.
pub open spec fn expiry_sorted(s: Seq<StoredAction>) -> bool {
    forall|i: int, j: int| 0 <= i <= j < s.len() ==> (#[trigger] s[i]).expires_at_seconds <= (#[trigger] s[j]).expires_at_seconds
}

fn insert_by_expiry(out: &mut Vec<StoredAction>, a: StoredAction)
    requires
        expiry_sorted(old(out)@),
    ensures
        expiry_sorted(final(out)@),
        final(out)@.to_multiset() == old(out)@.to_multiset().insert(a),
{
    let mut pos: usize = 0;
    while pos < out.len() && out[pos].expires_at_seconds <= a.expires_at_seconds
        invariant
            pos <= out@.len(),
            forall|j: int| 0 <= j < pos ==> (#[trigger] out@[j]).expires_at_seconds <= a.expires_at_seconds,
        decreases out@.len() - pos,
    {
        pos += 1;
    }
    let ghost before = out@;
    let ghost av = a;
    out.insert(pos, a);
    proof {
        vstd::seq_lib::to_multiset_insert(before, pos as int, av);
        let o = out@;
        assert(o == before.insert(pos as int, av));
        assert forall|i: int, j: int| 0 <= i <= j < o.len() implies (#[trigger] o[i]).expires_at_seconds
            <= (#[trigger] o[j]).expires_at_seconds by {
            if pos < before.len() {
                assert(before[pos as int].expires_at_seconds > av.expires_at_seconds);
            }
            if i < pos {
                assert(o[i] == before[i]);
                if j < pos {
                    assert(o[j] == before[j]);
                } else if j > pos {
                    assert(o[j] == before[j - 1]);
                    assert(before[pos as int].expires_at_seconds <= before[j - 1].expires_at_seconds);
                }
            } else if i == pos {
                if j > pos {
                    assert(o[j] == before[j - 1]);
                    assert(before[pos as int].expires_at_seconds <= before[j - 1].expires_at_seconds);
                }
            } else {
                assert(o[i] == before[i - 1]);
                assert(o[j] == before[j - 1]);
            }
        }
    }
}

/// The pending actions for listing: all of them, soonest to expire first.
pub fn pending_by_expiry(actions: Vec<StoredAction>) -> (r: Vec<StoredAction>)
    ensures
        expiry_sorted(r@),
        r@.to_multiset() == actions@.to_multiset(),
{
    let ghost input = actions@;
    let mut rest = actions;
    let mut out: Vec<StoredAction> = Vec::new();
    let ghost mut n: int = 0;
    assert(input.skip(0) == input);
    assert(input.take(0) == Seq::<StoredAction>::empty());
    while rest.len() > 0
        invariant
            0 <= n <= input.len(),
            rest@ == input.skip(n),
            expiry_sorted(out@),
            out@.to_multiset() == input.take(n).to_multiset(),
        decreases rest.len(),
    {
        let a = rest.remove(0);
        assert(a == input[n]);
        assert(input.skip(n).remove(0) == input.skip(n + 1));
        assert(input.take(n + 1) == input.take(n).push(a));
        proof {
            vstd::seq_lib::to_multiset_build(input.take(n), a);
        }
        insert_by_expiry(&mut out, a);
        proof {
            n = n + 1;
        }
    }
    assert(input.take(n) == input);
    out
}

/// Scheduling an action under a new identifier and confirming it leaves
/// the pending actions as they were.
pub proof fn law_schedule_then_confirm_restores(actions: Seq<StoredAction>, stored: StoredAction)
    requires
        !has_action(actions, stored.action_id@),
    ensures
        actions.filter(other_action(stored.action_id@)).push(stored).filter(other_action(stored.action_id@))
            == actions,
{
    let id = stored.action_id@;
    lemma_filter_without(actions, id);
    actions.lemma_filter_push(stored, other_action(id));
}

/// Once an action has fired or been confirmed, it is no longer pending.
pub proof fn law_removed_action_is_gone(actions: Seq<StoredAction>, id: Seq<char>)
    ensures
        !has_action(actions.filter(other_action(id)), id),
{
    let f = actions.filter(other_action(id));
    if has_action(f, id) {
        let i = choose|i: int| 0 <= i < f.len() && (#[trigger] f[i]).action_id@ == id;
        actions.lemma_filter_pred(other_action(id), i);
    }
}

proof fn lemma_filter_without(actions: Seq<StoredAction>, id: Seq<char>)
    requires
        !has_action(actions, id),
    ensures
        actions.filter(other_action(id)) == actions,
    decreases actions.len(),
{
    if actions.len() > 0 {
        let init = actions.drop_last();
        assert(actions == init.push(actions.last()));
        assert(!has_action(init, id)) by {
            if has_action(init, id) {
                let j = choose|j: int| 0 <= j < init.len() && (#[trigger] init[j]).action_id@ == id;
                assert(actions[j] == init[j]);
            }
        }
        lemma_filter_without(init, id);
        init.lemma_filter_push(actions.last(), other_action(id));
        assert(actions[actions.len() - 1] == actions.last());
    } else {
        actions.lemma_filter_len(other_action(id));
        assert(actions.filter(other_action(id)) =~= actions);
    }
}

} // verus!
