use vstd::prelude::*;
use crate::types::{Balance, Campaign, ContextId, empty_campaign};

verus! {

/// The balance recorded for context `c` in a table of (context, balance)
/// entries: that of its first entry, zero where it has none.
pub open spec fn used_in(s: Seq<(ContextId, Balance)>, c: ContextId) -> Balance
    decreases s.len(),
{
    if s.len() == 0 {
        0
    } else if s[0].0 == c {
        s[0].1
    } else {
        used_in(s.drop_first(), c)
    }
}

/// What the campaign collaborator reports for context `c`: its first entry
/// in `cs`, and an empty campaign where there is none.
pub open spec fn campaign_for(cs: Seq<Campaign>, c: ContextId) -> Campaign
    decreases cs.len(),
{
    if cs.len() == 0 {
        empty_campaign(c)
    } else if cs[0].context_id == c {
        cs[0]
    } else {
        campaign_for(cs.drop_first(), c)
    }
}

/// The first entry of `c` in `s`, if any.
pub fn find_used(s: &Vec<(ContextId, Balance)>, c: ContextId) -> (r: Option<usize>)
    ensures
        match r {
            Some(i) => i < s@.len() && s@[i as int].0 == c && used_in(s@, c) == s@[i as int].1
                && forall|j: int| 0 <= j < i ==> s@[j].0 != c,
            None => used_in(s@, c) == 0 && forall|j: int| 0 <= j < s@.len() ==> s@[j].0 != c,
        },
{
    let mut i: usize = 0;
    assert(s@.subrange(0, s@.len() as int) =~= s@);
    while i < s.len()
        invariant
            0 <= i <= s@.len(),
            forall|j: int| 0 <= j < i ==> s@[j].0 != c,
            used_in(s@, c) == used_in(s@.subrange(i as int, s@.len() as int), c),
        decreases s@.len() - i,
    {
        if s[i].0 == c {
            return Some(i);
        }
        assert(s@.subrange(i as int, s@.len() as int).drop_first() =~= s@.subrange(
            i + 1,
            s@.len() as int,
        ));
        i = i + 1;
    }
    None
}

/// The balance used so far by context `c`.
pub fn used_of(s: &Vec<(ContextId, Balance)>, c: ContextId) -> (r: Balance)
    ensures
        r == used_in(s@, c),
{
    match find_used(s, c) {
        Some(i) => s[i].1,
        None => 0,
    }
}

/// Records `v` as the balance used by context `c`.
pub fn set_used(s: &mut Vec<(ContextId, Balance)>, c: ContextId, v: Balance)
    ensures
        forall|d: ContextId| used_in(final(s)@, d) == if d == c { v } else { used_in(old(s)@, d) },
{
    match find_used(s, c) {
        Some(i) => {
            proof {
                lemma_used_update(old(s)@, i as int, c, v);
            }
            s.set(i, (c, v));
        },
        None => {
            proof {
                lemma_used_push(old(s)@, c, v);
            }
            s.push((c, v));
        },
    }
}

proof fn lemma_used_update(s: Seq<(ContextId, Balance)>, i: int, c: ContextId, v: Balance)
    requires
        0 <= i < s.len(),
        s[i].0 == c,
        forall|j: int| 0 <= j < i ==> s[j].0 != c,
    ensures
        forall|d: ContextId| used_in(s.update(i, (c, v)), d) == if d == c { v } else { used_in(s, d) },
    decreases i,
{
    let t = s.update(i, (c, v));
    if i > 0 {
        let r = s.drop_first().update(i - 1, (c, v));
        assert(t.drop_first() =~= r);
        lemma_used_update(s.drop_first(), i - 1, c, v);
        assert forall|d: ContextId| used_in(t, d) == if d == c { v } else { used_in(s, d) } by {
            assert(t[0] == s[0]);
            assert(used_in(r, d) == if d == c { v } else { used_in(s.drop_first(), d) });
        }
    } else {
        assert(t.drop_first() =~= s.drop_first());
        assert forall|d: ContextId| used_in(t, d) == if d == c { v } else { used_in(s, d) } by {
            assert(t[0] == (c, v));
        }
    }
}

proof fn lemma_used_push(s: Seq<(ContextId, Balance)>, c: ContextId, v: Balance)
    requires
        forall|j: int| 0 <= j < s.len() ==> s[j].0 != c,
    ensures
        forall|d: ContextId| used_in(s.push((c, v)), d) == if d == c { v } else { used_in(s, d) },
    decreases s.len(),
{
    let t = s.push((c, v));
    if s.len() > 0 {
        let r = s.drop_first().push((c, v));
        assert(t.drop_first() =~= r);
        lemma_used_push(s.drop_first(), c, v);
        assert forall|d: ContextId| used_in(t, d) == if d == c { v } else { used_in(s, d) } by {
            assert(t[0] == s[0]);
            assert(used_in(r, d) == if d == c { v } else { used_in(s.drop_first(), d) });
        }
    } else {
        assert(t.drop_first() =~= Seq::<(ContextId, Balance)>::empty());
        assert forall|d: ContextId| used_in(t, d) == if d == c { v } else { used_in(s, d) } by {
            assert(used_in(t.drop_first(), d) == 0);
            assert(t[0] == (c, v));
        }
    }
}

/// Looks up what the campaign collaborator reports for context `c`.
pub fn find_campaign(cs: &Vec<Campaign>, c: ContextId) -> (r: Campaign)
    ensures
        r == campaign_for(cs@, c),
{
    let mut i: usize = 0;
    assert(cs@.subrange(0, cs@.len() as int) =~= cs@);
    while i < cs.len()
        invariant
            0 <= i <= cs@.len(),
            campaign_for(cs@, c) == campaign_for(cs@.subrange(i as int, cs@.len() as int), c),
        decreases cs@.len() - i,
    {
        if cs[i].context_id == c {
            return cs[i];
        }
        assert(cs@.subrange(i as int, cs@.len() as int).drop_first() =~= cs@.subrange(
            i + 1,
            cs@.len() as int,
        ));
        i = i + 1;
    }
    Campaign::unknown(c)
}

/// The campaign reported for `c` is about `c`.
pub proof fn lemma_campaign_for_context(cs: Seq<Campaign>, c: ContextId)
    ensures
        campaign_for(cs, c).context_id == c,
    decreases cs.len(),
{
    if cs.len() > 0 {
        lemma_campaign_for_context(cs.drop_first(), c);
    }
}

} // verus!
