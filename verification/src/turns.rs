use vstd::prelude::*;
use vstd::string::*;
use crate::text::same_text;

verus! {

/// Whether a turn's cancel flag is set. The flag is shared with other
/// threads, so its value is whatever was stored last.
pub fn cancelled(flag: &std::sync::Arc<std::sync::atomic::AtomicBool>) -> bool {
    flag.load(std::sync::atomic::Ordering::SeqCst)
}

/// The reply turn in flight in one group: the user message that started it
/// and the token under which its cancel flag and tasks are kept.
#[derive(Debug)]
pub struct Turn {
    pub group_id: String,
    pub user_message_id: String,
    pub token: u64,
}

/// The turns as a map from group to (user message, token).
pub open spec fn turns_map(s: Seq<Turn>) -> Map<Seq<char>, (Seq<char>, u64)>
    decreases s.len(),
{
    if s.len() == 0 {
        Map::empty()
    } else {
        turns_map(s.drop_last()).insert(
            s.last().group_id@,
            (s.last().user_message_id@, s.last().token),
        )
    }
}

/// No group has two turns.
pub open spec fn distinct_groups(s: Seq<Turn>) -> bool {
    forall|i: int, j: int|
        0 <= i < j < s.len() ==> (#[trigger] s[i]).group_id@ != (#[trigger] s[j]).group_id@
}

/// The map after a new turn starts in group `g`, and the token of the turn
/// it replaces, which is to be cancelled.
pub open spec fn begin_spec(
    m: Map<Seq<char>, (Seq<char>, u64)>,
    g: Seq<char>,
    msg: Seq<char>,
    token: u64,
) -> (Map<Seq<char>, (Seq<char>, u64)>, Option<u64>) {
    (
        m.insert(g, (msg, token)),
        if m.contains_key(g) {
            Some(m[g].1)
        } else {
            None
        },
    )
}

/// The map after recalling user message `msg` of group `g`, and the token
/// of the turn to cancel: only the turn that this message started is cancelled.
pub open spec fn cancel_spec(m: Map<Seq<char>, (Seq<char>, u64)>, g: Seq<char>, msg: Seq<char>) -> (
    Map<Seq<char>, (Seq<char>, u64)>,
    Option<u64>,
) {
    if m.contains_key(g) && m[g].0 == msg {
        (m.remove(g), Some(m[g].1))
    } else {
        (m, None)
    }
}

/// The map after the turn of message `msg` in group `g` ends; a newer turn
/// of the group is left alone.
pub open spec fn finish_spec(m: Map<Seq<char>, (Seq<char>, u64)>, g: Seq<char>, msg: Seq<char>) -> Map<
    Seq<char>,
    (Seq<char>, u64),
> {
    if m.contains_key(g) && m[g].0 == msg {
        m.remove(g)
    } else {
        m
    }
}

proof fn lemma_map_of_found(s: Seq<Turn>, i: int)
    requires
        distinct_groups(s),
        0 <= i < s.len(),
    ensures
        turns_map(s).contains_key(s[i].group_id@),
        turns_map(s)[s[i].group_id@] == (s[i].user_message_id@, s[i].token),
    decreases s.len(),
{
    if i < s.len() - 1 {
        lemma_map_of_found(s.drop_last(), i);
        assert(s.drop_last()[i] == s[i]);
        assert(s[i].group_id@ != s[s.len() - 1].group_id@);
    }
}

proof fn lemma_map_of_missing(s: Seq<Turn>, g: Seq<char>)
    requires
        forall|i: int| 0 <= i < s.len() ==> (#[trigger] s[i]).group_id@ != g,
    ensures
        !turns_map(s).contains_key(g),
    decreases s.len(),
{
    if s.len() > 0 {
        lemma_map_of_missing(s.drop_last(), g);
        assert(s[s.len() - 1] == s.last());
    }
}

proof fn lemma_map_of_remove(s: Seq<Turn>, i: int)
    requires
        distinct_groups(s),
        0 <= i < s.len(),
    ensures
        turns_map(s.remove(i)) == turns_map(s).remove(s[i].group_id@),
        distinct_groups(s.remove(i)),
    decreases s.len(),
{
    let g = s[i].group_id@;
    let r = s.remove(i);
    assert forall|a: int, b: int| 0 <= a < b < r.len() implies (#[trigger] r[a]).group_id@ != (
    #[trigger] r[b]).group_id@ by {
        let a2 = if a < i {
            a
        } else {
            a + 1
        };
        let b2 = if b < i {
            b
        } else {
            b + 1
        };
        assert(r[a] == s[a2] && r[b] == s[b2]);
    }
    if i == s.len() - 1 {
        assert(r =~= s.drop_last());
        assert forall|j: int| 0 <= j < r.len() implies (#[trigger] r[j]).group_id@ != g by {
            assert(r[j] == s[j]);
        }
        lemma_map_of_missing(r, g);
        assert(turns_map(r) =~= turns_map(s).remove(g));
    } else {
        let d = s.drop_last();
        assert(distinct_groups(d)) by {
            assert forall|a: int, b: int| 0 <= a < b < d.len() implies (#[trigger] d[a]).group_id@
                != (#[trigger] d[b]).group_id@ by {
                assert(d[a] == s[a] && d[b] == s[b]);
            }
        }
        lemma_map_of_remove(d, i);
        assert(r.drop_last() =~= d.remove(i));
        assert(r.last() == s.last());
        assert(s.last().group_id@ != g);
        assert(turns_map(r) =~= turns_map(s).remove(g));
    }
}

/// The turns in flight, at most one per group.
#[derive(Debug)]
pub struct TurnBook {
    turns: Vec<Turn>,
}

impl View for TurnBook {
    type V = Map<Seq<char>, (Seq<char>, u64)>;

    closed spec fn view(&self) -> Map<Seq<char>, (Seq<char>, u64)> {
        turns_map(self.turns@)
    }
}

/// Removes the turn at index `i`.
fn drop_at(turns: &mut Vec<Turn>, i: usize) -> (r: Turn)
    requires
        distinct_groups(old(turns)@),
        i < old(turns).len(),
    ensures
        distinct_groups(final(turns)@),
        turns_map(final(turns)@) == turns_map(old(turns)@).remove(old(turns)@[i as int].group_id@),
        r == old(turns)@[i as int],
{
    proof {
        lemma_map_of_remove(turns@, i as int);
    }
    turns.remove(i)
}

impl TurnBook {
    /// At most one turn per group.
    #[verifier::type_invariant]
    spec fn wf(&self) -> bool {
        distinct_groups(self.turns@)
    }

    /// No turn in flight.
    pub fn new() -> (r: TurnBook)
        ensures
            r@ == Map::<Seq<char>, (Seq<char>, u64)>::empty(),
    {
        TurnBook { turns: Vec::new() }
    }

    /// Index of the turn of group `g`.
    fn position(&self, g: &str) -> (r: Option<usize>)
        ensures
            match r {
                Some(i) => i < self.turns.len() && self.turns@[i as int].group_id@ == g@,
                None => forall|i: int|
                    0 <= i < self.turns.len() ==> (#[trigger] self.turns@[i]).group_id@ != g@,
            },
    {
        let mut i: usize = 0;
        while i < self.turns.len()
            invariant
                i <= self.turns.len(),
                forall|j: int| 0 <= j < i ==> (#[trigger] self.turns@[j]).group_id@ != g@,
            decreases self.turns.len() - i,
        {
            if same_text(self.turns[i].group_id.as_str(), g) {
                return Some(i);
            }
            i = i + 1;
        }
        None
    }

    /// The turn in flight in group `g`, as (user message id, token).
    pub fn current(&self, g: &str) -> (r: Option<(String, u64)>)
        ensures
            match r {
                Some((m, t)) => self@.contains_key(g@) && self@[g@] == (m@, t),
                None => !self@.contains_key(g@),
            },
    {
        proof {
            use_type_invariant(self);
        }
        match self.position(g) {
            Some(i) => {
                proof {
                    lemma_map_of_found(self.turns@, i as int);
                }
                Some((self.turns[i].user_message_id.clone(), self.turns[i].token))
            },
            None => {
                proof {
                    lemma_map_of_missing(self.turns@, g@);
                }
                None
            },
        }
    }

    /// Starts a new turn in group `g` for user message `msg`. Returns the
    /// token of the turn it replaces, which the caller cancels.
    pub fn begin(&mut self, g: &str, msg: &str, token: u64) -> (r: Option<u64>)
        ensures
            (final(self)@, r) == begin_spec(old(self)@, g@, msg@, token),
    {
        proof {
            use_type_invariant(&*self);
        }
        let found = self.position(g);
        let mut turns: Vec<Turn> = Vec::new();
        std::mem::swap(&mut turns, &mut self.turns);
        let prev = match found {
            Some(i) => {
                proof {
                    lemma_map_of_found(turns@, i as int);
                }
                let t = drop_at(&mut turns, i);
                Some(t.token)
            },
            None => {
                proof {
                    lemma_map_of_missing(turns@, g@);
                }
                None
            },
        };
        let ghost mid = turns@;
        proof {
            assert(!turns_map(mid).contains_key(g@));
            assert forall|i: int| 0 <= i < mid.len() implies (#[trigger] mid[i]).group_id@ != g@ by {
                lemma_map_of_found(mid, i);
            }
        }
        turns.push(
            Turn { group_id: String::from_str(g), user_message_id: String::from_str(msg), token },
        );
        proof {
            assert(turns@.drop_last() =~= mid);
            assert forall|a: int, b: int| 0 <= a < b < turns@.len() implies (
            #[trigger] turns@[a]).group_id@ != (#[trigger] turns@[b]).group_id@ by {
                if b == mid.len() {
                    assert(turns@[a] == mid[a]);
                } else {
                    assert(turns@[a] == mid[a] && turns@[b] == mid[b]);
                }
            }
            assert(turns_map(turns@) =~= old(self)@.insert(g@, (msg@, token)));
        }
        self.turns = turns;
        prev
    }

    /// Ends the turn of group `g` when it belongs to user message `msg` and
    /// returns its token, which the caller cancels; any other turn is left alone.
    pub fn cancel_for_message(&mut self, g: &str, msg: &str) -> (r: Option<u64>)
        ensures
            (final(self)@, r) == cancel_spec(old(self)@, g@, msg@),
    {
        proof {
            use_type_invariant(&*self);
        }
        match self.position(g) {
            Some(i) => {
                proof {
                    lemma_map_of_found(self.turns@, i as int);
                }
                if !same_text(self.turns[i].user_message_id.as_str(), msg) {
                    return None;
                }
                let mut turns: Vec<Turn> = Vec::new();
                std::mem::swap(&mut turns, &mut self.turns);
                let t = drop_at(&mut turns, i);
                self.turns = turns;
                Some(t.token)
            },
            None => {
                proof {
                    lemma_map_of_missing(self.turns@, g@);
                }
                None
            },
        }
    }

    /// Forgets the turn of group `g` once it has run to its end, unless a
    /// newer turn has taken its place; returns the token of the turn forgotten.
    pub fn finish(&mut self, g: &str, msg: &str) -> (r: Option<u64>)
        ensures
            final(self)@ == finish_spec(old(self)@, g@, msg@),
            r == cancel_spec(old(self)@, g@, msg@).1,
    {
        self.cancel_for_message(g, msg)
    }
}

/// Recalling the message that started the current turn of a group always
/// cancels that turn, and leaves no turn in the group.
pub proof fn law_recall_cancels_current_turn(
    m: Map<Seq<char>, (Seq<char>, u64)>,
    g: Seq<char>,
    msg: Seq<char>,
    token: u64,
)
    ensures
        cancel_spec(begin_spec(m, g, msg, token).0, g, msg) == (m.remove(g), Some(token)),
{
    assert(m.insert(g, (msg, token)).remove(g) =~= m.remove(g));
}

/// A turn is cancelled at most once: recalling the same message again
/// cancels nothing.
pub proof fn law_cancel_at_most_once(m: Map<Seq<char>, (Seq<char>, u64)>, g: Seq<char>, msg: Seq<char>)
    ensures
        cancel_spec(cancel_spec(m, g, msg).0, g, msg).1.is_none(),
{
}

/// Recalling an older message never cancels the newer turn of its group.
pub proof fn law_recall_spares_newer_turn(
    m: Map<Seq<char>, (Seq<char>, u64)>,
    g: Seq<char>,
    older: Seq<char>,
    newer: Seq<char>,
    token: u64,
)
    requires
        older != newer,
    ensures
        cancel_spec(begin_spec(m, g, newer, token).0, g, older) == (
            begin_spec(m, g, newer, token).0,
            None::<u64>,
        ),
{
}

/// An older turn that runs to its end does not remove the newer turn of its
/// group, and a turn's end leaves other groups alone.
pub proof fn law_finish_spares_others(
    m: Map<Seq<char>, (Seq<char>, u64)>,
    g: Seq<char>,
    older: Seq<char>,
    newer: Seq<char>,
    token: u64,
    other: Seq<char>,
)
    requires
        older != newer,
        other != g,
    ensures
        finish_spec(begin_spec(m, g, newer, token).0, g, older) == begin_spec(m, g, newer, token).0,
        finish_spec(m, g, older).contains_key(other) == m.contains_key(other),
        m.contains_key(other) ==> finish_spec(m, g, older)[other] == m[other],
{
}

/// Starting a turn replaces the group's previous turn, whose token is handed
/// back to be cancelled, and leaves other groups alone.
pub proof fn law_begin_replaces_previous(
    m: Map<Seq<char>, (Seq<char>, u64)>,
    g: Seq<char>,
    msg: Seq<char>,
    token: u64,
    other: Seq<char>,
)
    requires
        other != g,
    ensures
        m.contains_key(g) ==> begin_spec(m, g, msg, token).1 == Some(m[g].1),
        begin_spec(m, g, msg, token).0[g] == (msg, token),
        begin_spec(m, g, msg, token).0.contains_key(other) == m.contains_key(other),
        m.contains_key(other) ==> begin_spec(m, g, msg, token).0[other] == m[other],
{
}

} // verus!
