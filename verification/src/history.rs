//! A bounded, navigable command history.
//!
//! The ring stores up to `capacity` entries, oldest first.  A navigation
//! cursor counts steps back from the newest entry; an absent cursor means
//! the user is on the live, uncommitted line.

use vstd::prelude::*;

verus! {

/// Whether a character has the Unicode `White_Space` property: the
/// ASCII whitespace and the fixed list of further space code points the
/// property names.
pub open spec fn char_whitespace(c: char) -> bool {
    ||| c == ' '
    ||| c == '\t'
    ||| c == '\n'
    ||| c == '\u{000b}'
    ||| c == '\u{000c}'
    ||| c == '\r'
    ||| c == '\u{0085}'
    ||| c == '\u{00a0}'
    ||| c == '\u{1680}'
    ||| c == '\u{2000}'
    ||| c == '\u{2001}'
    ||| c == '\u{2002}'
    ||| c == '\u{2003}'
    ||| c == '\u{2004}'
    ||| c == '\u{2005}'
    ||| c == '\u{2006}'
    ||| c == '\u{2007}'
    ||| c == '\u{2008}'
    ||| c == '\u{2009}'
    ||| c == '\u{200a}'
    ||| c == '\u{2028}'
    ||| c == '\u{2029}'
    ||| c == '\u{202f}'
    ||| c == '\u{205f}'
    ||| c == '\u{3000}'
}

/// Relies on `char::is_whitespace` of std: true exactly for the
/// characters with the Unicode `White_Space` property, the list that
/// `char_whitespace` spells out.
#[verifier::external_body]
fn whitespace_char(c: char) -> (r: bool)
    ensures
        r == char_whitespace(c),
{
    c.is_whitespace()
}

/// An entry is blank when it is empty or consists of whitespace only.
/// Blank entries are never stored in the history.
pub open spec fn is_blank(s: Seq<char>) -> bool {
    forall|i: int| 0 <= i < s.len() ==> char_whitespace(#[trigger] s[i])
}

/// The stored entries after pushing `cmd` into a ring of capacity `cap`:
/// a blank command changes nothing; otherwise the command is appended,
/// evicting the oldest entry when the ring is full.
pub open spec fn pushed_entries(entries: Seq<Seq<char>>, cap: nat, cmd: Seq<char>) -> Seq<
    Seq<char>,
> {
    if is_blank(cmd) {
        entries
    } else if entries.len() < cap {
        entries.push(cmd)
    } else {
        entries.drop_first().push(cmd)
    }
}

/// The navigation cursor after one step into the past: an absent cursor
/// selects the newest entry; otherwise the cursor moves one entry older,
/// saturating at the oldest.
pub open spec fn prev_cursor(cur: Option<usize>, len: nat) -> Option<usize> {
    match cur {
        None => Some(0usize),
        Some(c) => if c + 1 < len {
            Some((c + 1) as usize)
        } else {
            Some(c)
        },
    }
}

/// The navigation cursor after one step toward the present: from the
/// newest entry it returns to the live line (absent); from the live line
/// it stays absent.
pub open spec fn next_cursor(cur: Option<usize>) -> Option<usize> {
    match cur {
        Some(c) => if c == 0 {
            None
        } else {
            Some((c - 1) as usize)
        },
        None => None,
    }
}

/// The entry selected by the navigation cursor, counted back from the
/// newest, or nothing when the cursor is absent or the ring is empty.
pub open spec fn current_entry(entries: Seq<Seq<char>>, cur: Option<usize>) -> Option<Seq<char>> {
    if entries.len() == 0 {
        None
    } else {
        match cur {
            None => None,
            Some(c) => {
                let idx = if c + 1 <= entries.len() {
                    entries.len() - c - 1
                } else {
                    0
                };
                Some(entries[idx as int])
            },
        }
    }
}

/// What a step toward the present returns: nothing when it lands back on
/// the live line, an empty entry when it was already there, and the newly
/// selected entry otherwise.
pub open spec fn next_entry(entries: Seq<Seq<char>>, cur: Option<usize>) -> Option<Seq<char>> {
    match cur {
        Some(c) => if c == 0 {
            None
        } else {
            current_entry(entries, Some((c - 1) as usize))
        },
        None => Some(Seq::<char>::empty()),
    }
}

/// The stored entries after pushing each of `cmds` in order.
pub open spec fn push_all(entries: Seq<Seq<char>>, cap: nat, cmds: Seq<Seq<char>>) -> Seq<
    Seq<char>,
>
    decreases cmds.len(),
{
    if cmds.len() == 0 {
        entries
    } else {
        push_all(pushed_entries(entries, cap, cmds.first()), cap, cmds.drop_first())
    }
}

/// The entries left in the ring after `k` pops.
pub open spec fn popped(entries: Seq<Seq<char>>, k: nat) -> Seq<Seq<char>> {
    if k <= entries.len() {
        entries.take((entries.len() - k) as int)
    } else {
        Seq::empty()
    }
}

/// Pushing any run of non-blank commands keeps exactly the most recent
/// ones: the ring then holds the last `cap` of everything it ever saw,
/// oldest first.
pub proof fn lemma_push_all_retains_recent(
    entries: Seq<Seq<char>>,
    cap: nat,
    cmds: Seq<Seq<char>>,
)
    requires
        cap >= 1,
        entries.len() <= cap,
        forall|i: int| 0 <= i < cmds.len() ==> !is_blank(#[trigger] cmds[i]),
    ensures
        push_all(entries, cap, cmds) == ({
            let total = entries.len() + cmds.len();
            let start: int = if total <= cap {
                0
            } else {
                (total - cap) as int
            };
            (entries + cmds).subrange(start, total as int)
        }),
    decreases cmds.len(),
{
    let total = entries.len() + cmds.len();
    let start: int = if total <= cap {
        0
    } else {
        (total - cap) as int
    };
    let combined = entries + cmds;
    if cmds.len() == 0 {
        assert(combined.subrange(0, entries.len() as int) =~= entries);
    } else {
        let c0 = cmds.first();
        assert(!is_blank(c0));
        let e2 = pushed_entries(entries, cap, c0);
        let rest = cmds.drop_first();
        assert(forall|i: int| 0 <= i < rest.len() ==> !is_blank(#[trigger] rest[i])) by {
            assert(forall|i: int| 0 <= i < rest.len() ==> rest[i] == cmds[i + 1]);
        }
        lemma_push_all_retains_recent(e2, cap, rest);
        let total2 = e2.len() + rest.len();
        let start2: int = if total2 <= cap {
            0
        } else {
            (total2 - cap) as int
        };
        if entries.len() < cap {
            assert(e2 + rest =~= combined);
            assert((e2 + rest).subrange(start2, total2 as int) == combined.subrange(
                start,
                total as int,
            ));
        } else {
            assert(e2 + rest =~= combined.subrange(1, total as int));
            assert((e2 + rest).subrange(start2, total2 as int) =~= combined.subrange(
                start,
                total as int,
            ));
        }
    }
}

/// A history fed non-blank commands from empty retains exactly the
/// `cap` most recently pushed ones, oldest-to-newest order preserved;
/// while the pushes still fit, it holds them all.
pub proof fn lemma_history_retains_most_recent(cap: nat, cmds: Seq<Seq<char>>)
    requires
        cap >= 1,
        forall|i: int| 0 <= i < cmds.len() ==> !is_blank(#[trigger] cmds[i]),
    ensures
        cmds.len() >= cap ==> push_all(Seq::empty(), cap, cmds) == cmds.subrange(
            (cmds.len() - cap) as int,
            cmds.len() as int,
        ),
        cmds.len() <= cap ==> push_all(Seq::empty(), cap, cmds) == cmds,
{
    lemma_push_all_retains_recent(Seq::empty(), cap, cmds);
    let combined = Seq::<Seq<char>>::empty() + cmds;
    assert(combined =~= cmds);
    assert(cmds.subrange(0, cmds.len() as int) =~= cmds);
}

/// After `n` pushes of non-blank commands within capacity, the `k`-th
/// pop (counted from zero) returns the commands in reverse insertion
/// order: it yields `cmds[n - 1 - k]` and leaves the state that the
/// next pop continues from; after `n` pops the ring is empty and a
/// further pop yields nothing.
pub proof fn lemma_pop_reverse_order(cap: nat, cmds: Seq<Seq<char>>, k: nat)
    requires
        cap >= 1,
        cmds.len() <= cap,
        forall|i: int| 0 <= i < cmds.len() ==> !is_blank(#[trigger] cmds[i]),
        k < cmds.len(),
    ensures
        ({
            let stored = push_all(Seq::empty(), cap, cmds);
            &&& popped(stored, k).len() > 0
            &&& popped(stored, k).last() == cmds[cmds.len() - 1 - k]
            &&& popped(stored, k).drop_last() == popped(stored, k + 1)
            &&& popped(stored, cmds.len() as nat).len() == 0
        }),
{
    lemma_history_retains_most_recent(cap, cmds);
    let stored = push_all(Seq::<Seq<char>>::empty(), cap, cmds);
    assert(popped(stored, k).drop_last() =~= popped(stored, k + 1));
}

/// The navigation cursor after `k` steps into the past.
pub open spec fn prev_n(cur: Option<usize>, len: nat, k: nat) -> Option<usize>
    decreases k,
{
    if k == 0 {
        cur
    } else {
        prev_cursor(prev_n(cur, len, (k - 1) as nat), len)
    }
}

/// The navigation cursor after `k` steps toward the present.
pub open spec fn next_n(cur: Option<usize>, k: nat) -> Option<usize>
    decreases k,
{
    if k == 0 {
        cur
    } else {
        next_n(next_cursor(cur), (k - 1) as nat)
    }
}

/// After `k` steps into the past from the live line (`1 <= k <= len`),
/// the cursor selects the entry `k` back from the end, at position
/// `len - k`; one step toward the present then yields the entry one
/// newer, or returns to the live line when only one step was taken.
pub proof fn lemma_prev_navigation(entries: Seq<Seq<char>>, k: nat)
    requires
        entries.len() <= usize::MAX,
        1 <= k <= entries.len(),
    ensures
        prev_n(None, entries.len(), k) == Some((k - 1) as usize),
        current_entry(entries, prev_n(None, entries.len(), k)) == Some(
            entries[entries.len() - k],
        ),
        k >= 2 ==> next_entry(entries, prev_n(None, entries.len(), k)) == Some(
            entries[entries.len() - k + 1],
        ),
        k == 1 ==> next_entry(entries, prev_n(None, entries.len(), k)) is None,
    decreases k,
{
    let len = entries.len();
    if k == 1 {
        assert(prev_n(None, len, 0) == None::<usize>);
        assert(prev_n(None, len, 1) == prev_cursor(None, len));
    } else {
        lemma_prev_navigation(entries, (k - 1) as nat);
        assert(prev_n(None, len, k) == prev_cursor(prev_n(None, len, (k - 1) as nat), len));
    }
}

/// From a cursor standing `j` entries into the past, `j + 1` steps
/// toward the present land back on the live line.
pub proof fn lemma_next_exhausts(j: usize)
    ensures
        next_n(Some(j), j as nat + 1) is None,
    decreases j,
{
    if j == 0 {
        assert(next_n(Some(0usize), 1) == next_n(next_cursor(Some(0usize)), 0));
        assert(next_n(None::<usize>, 0) is None);
    } else {
        lemma_next_exhausts((j - 1) as usize);
        assert(next_n(Some(j), j as nat + 1) == next_n(next_cursor(Some(j)), j as nat));
        assert(next_cursor(Some(j)) == Some((j - 1) as usize));
    }
}

/// Relates an executable optional entry to its mathematical model.
pub open spec fn opt_entry_eq(r: Option<Vec<char>>, e: Option<Seq<char>>) -> bool {
    match r {
        Some(v) => e == Some(v@),
        None => e is None,
    }
}

/// Copies a line of characters.
pub(crate) fn clone_chars(v: &Vec<char>) -> (r: Vec<char>)
    ensures
        r@ == v@,
{
    let mut r: Vec<char> = Vec::new();
    let mut i: usize = 0;
    while i < v.len()
        invariant
            i <= v@.len(),
            r@ == v@.subrange(0, i as int),
        decreases v@.len() - i,
    {
        r.push(v[i]);
        proof {
            assert(r@ =~= v@.subrange(0, i + 1));
        }
        i += 1;
    }
    proof {
        assert(v@.subrange(0, v@.len() as int) =~= v@);
    }
    r
}

/// Checks whether a command is blank, that is empty or all whitespace.
fn blank_command(cmd: &Vec<char>) -> (r: bool)
    ensures
        r == is_blank(cmd@),
{
    let mut i: usize = 0;
    while i < cmd.len()
        invariant
            i <= cmd@.len(),
            forall|j: int| 0 <= j < i ==> char_whitespace(#[trigger] cmd@[j]),
        decreases cmd@.len() - i,
    {
        if !whitespace_char(cmd[i]) {
            return false;
        }
        i += 1;
    }
    true
}

/// A bounded store of past command lines with a navigation cursor.
pub struct History {
    capacity: usize,
    /// Steps back from the newest entry; absent when on the live line.
    cur: Option<usize>,
    stored_commands: Vec<Vec<char>>,
}

impl History {
    /// The stored entries, oldest first.
    pub closed spec fn entries(&self) -> Seq<Seq<char>> {
        self.stored_commands@.map_values(|e: Vec<char>| e@)
    }

    /// The fixed capacity of the ring.
    pub closed spec fn cap(&self) -> nat {
        self.capacity as nat
    }

    /// The navigation cursor, counted back from the newest entry.
    pub closed spec fn cursor(&self) -> Option<usize> {
        self.cur
    }

    /// Well-formedness: the capacity is positive, the ring never holds
    /// more than `cap()` entries, and a present cursor stays within the
    /// stored entries (except for the cursor parked at 0 on an empty
    /// ring, which selecting the past on an empty history produces).
    pub closed spec fn wf(&self) -> bool {
        &&& self.capacity >= 1
        &&& self.stored_commands@.len() <= self.capacity
        &&& match self.cur {
            Some(c) => c < self.stored_commands@.len() || (c == 0
                && self.stored_commands@.len() == 0),
            None => true,
        }
    }

    /// Whether two histories hold the same entries, cursor and capacity.
    pub open spec fn same_state(&self, other: &History) -> bool {
        &&& self.entries() == other.entries()
        &&& self.cursor() == other.cursor()
        &&& self.cap() == other.cap()
    }

    /// Create an empty history of the given capacity.
    pub fn new(capacity: usize) -> (r: History)
        requires
            capacity >= 1,
        ensures
            r.wf(),
            r.cap() == capacity,
            r.entries() == Seq::<Seq<char>>::empty(),
            r.cursor() is None,
    {
        let r = History { capacity, cur: None, stored_commands: Vec::new() };
        proof {
            assert(r.entries() =~= Seq::<Seq<char>>::empty());
        }
        r
    }

    /// Create a history holding the first `capacity` of the given
    /// entries, in argument order; extras are silently ignored.
    pub fn with_initial(capacity: usize, initial: Vec<Vec<char>>) -> (r: History)
        requires
            capacity >= 1,
        ensures
            r.wf(),
            r.cap() == capacity,
            r.cursor() is None,
            r.entries() == initial@.map_values(|e: Vec<char>| e@).take(
                if initial@.len() <= capacity {
                    initial@.len() as int
                } else {
                    capacity as int
                },
            ),
    {
        let mut r = History::new(capacity);
        let take_n: usize = if initial.len() <= capacity {
            initial.len()
        } else {
            capacity
        };
        let ghost model = initial@.map_values(|e: Vec<char>| e@);
        let mut i: usize = 0;
        while i < take_n
            invariant
                i <= take_n,
                take_n <= initial@.len(),
                take_n <= capacity,
                capacity >= 1,
                model == initial@.map_values(|e: Vec<char>| e@),
                r.cap() == capacity,
                r.cursor() is None,
                r.wf(),
                r.entries().len() == i,
                forall|j: int| 0 <= j < i ==> r.entries()[j] == model[j],
            decreases take_n - i,
        {
            let entry = clone_chars(&initial[i]);
            r.stored_commands.push(entry);
            i += 1;
        }
        proof {
            assert(r.entries() =~= model.take(take_n as int));
        }
        r
    }

    /// Push an entry at the newest end, evicting the oldest entry when
    /// the ring is full.  A blank entry is ignored entirely; otherwise
    /// the navigation cursor is reset to the live line.
    pub fn push(&mut self, command: Vec<char>)
        requires
            old(self).wf(),
        ensures
            final(self).wf(),
            final(self).cap() == old(self).cap(),
            is_blank(command@) ==> final(self).same_state(old(self)),
            !is_blank(command@) ==> final(self).entries() == pushed_entries(
                old(self).entries(),
                old(self).cap(),
                command@,
            ) && final(self).cursor() is None,
    {
        if blank_command(&command) {
            return ;
        }
        self.cur = None;
        if self.stored_commands.len() == self.capacity {
            self.stored_commands.remove(0);
            self.stored_commands.push(command);
            proof {
                assert(self.entries() =~= old(self).entries().drop_first().push(command@));
            }
        } else {
            self.stored_commands.push(command);
            proof {
                assert(self.entries() =~= old(self).entries().push(command@));
            }
        }
    }

    /// Remove and return the newest entry, resetting the navigation
    /// cursor; returns nothing when the history is empty.
    pub fn pop(&mut self) -> (r: Option<Vec<char>>)
        requires
            old(self).wf(),
        ensures
            final(self).wf(),
            final(self).cap() == old(self).cap(),
            final(self).cursor() is None,
            old(self).entries().len() == 0 ==> r is None && final(self).entries() == old(
                self,
            ).entries(),
            old(self).entries().len() > 0 ==> (r matches Some(v) && v@ == old(
                self,
            ).entries().last()) && final(self).entries() == old(self).entries().drop_last(),
    {
        self.cur = None;
        if self.stored_commands.len() == 0 {
            None
        } else {
            let v = self.stored_commands.pop().unwrap();
            proof {
                assert(self.entries() =~= old(self).entries().drop_last());
            }
            Some(v)
        }
    }

    /// The entry at `idx`, counted from the oldest at 0; out-of-range
    /// indices yield nothing.
    pub fn get(&self, idx: usize) -> (r: Option<Vec<char>>)
        requires
            self.wf(),
        ensures
            idx < self.entries().len() ==> (r matches Some(v) && v@ == self.entries()[idx as int]),
            idx >= self.entries().len() ==> r is None,
    {
        if idx >= self.stored_commands.len() {
            None
        } else {
            Some(clone_chars(&self.stored_commands[idx]))
        }
    }

    /// The newest entry, or nothing when the history is empty.
    pub fn newest(&self) -> (r: Option<Vec<char>>)
        requires
            self.wf(),
        ensures
            self.entries().len() > 0 ==> (r matches Some(v) && v@ == self.entries().last()),
            self.entries().len() == 0 ==> r is None,
    {
        if self.stored_commands.len() == 0 {
            None
        } else {
            self.get(self.stored_commands.len() - 1)
        }
    }

    /// The entry the navigation cursor selects, or nothing when the
    /// cursor is absent or the history is empty.
    pub fn current(&self) -> (r: Option<Vec<char>>)
        requires
            self.wf(),
        ensures
            opt_entry_eq(r, current_entry(self.entries(), self.cursor())),
    {
        if self.stored_commands.len() == 0 {
            return None;
        }
        match self.cur {
            Some(c) => {
                let idx = if c + 1 <= self.stored_commands.len() {
                    self.stored_commands.len() - c - 1
                } else {
                    0
                };
                Some(clone_chars(&self.stored_commands[idx]))
            },
            None => None,
        }
    }

    /// Move the cursor one entry into the past, saturating at the
    /// oldest, and return the entry it now selects.
    pub fn prev(&mut self) -> (r: Option<Vec<char>>)
        requires
            old(self).wf(),
        ensures
            final(self).wf(),
            final(self).cap() == old(self).cap(),
            final(self).entries() == old(self).entries(),
            final(self).cursor() == prev_cursor(old(self).cursor(), old(self).entries().len()),
            opt_entry_eq(r, current_entry(final(self).entries(), final(self).cursor())),
    {
        match self.cur {
            Some(c) => {
                if c + 1 < self.stored_commands.len() {
                    self.cur = Some(c + 1);
                }
            },
            None => {
                self.cur = Some(0);
            },
        }
        self.current()
    }

    /// Move the cursor one entry toward the present.  From the newest
    /// entry this returns to the live line and yields nothing; from the
    /// live line it yields an empty entry; otherwise it yields the newly
    /// selected entry.
    pub fn next(&mut self) -> (r: Option<Vec<char>>)
        requires
            old(self).wf(),
        ensures
            final(self).wf(),
            final(self).cap() == old(self).cap(),
            final(self).entries() == old(self).entries(),
            final(self).cursor() == next_cursor(old(self).cursor()),
            opt_entry_eq(r, next_entry(old(self).entries(), old(self).cursor())),
    {
        match self.cur {
            Some(c) => {
                if c == 0 {
                    self.cur = None;
                    None
                } else {
                    self.cur = Some(c - 1);
                    self.current()
                }
            },
            None => Some(Vec::new()),
        }
    }

    /// The stored entries as a list, oldest first.
    pub fn iter(&self) -> (r: Vec<Vec<char>>)
        requires
            self.wf(),
        ensures
            r@.map_values(|e: Vec<char>| e@) == self.entries(),
    {
        let mut r: Vec<Vec<char>> = Vec::new();
        let mut i: usize = 0;
        while i < self.stored_commands.len()
            invariant
                i <= self.stored_commands@.len(),
                self.wf(),
                r@.len() == i,
                forall|j: int| 0 <= j < i ==> r@.map_values(|e: Vec<char>| e@)[j]
                    == self.entries()[j],
            decreases self.stored_commands@.len() - i,
        {
            let entry = clone_chars(&self.stored_commands[i]);
            r.push(entry);
            i += 1;
        }
        proof {
            assert(r@.map_values(|e: Vec<char>| e@) =~= self.entries());
        }
        r
    }
}

} // verus!
