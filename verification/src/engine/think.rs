//! Separation of a model's reasoning from its answer.
//!
//! A reasoning model brackets its chain of thought with delimiters such as
//! `<think>` and `</think>`. [`ThinkSplitter`] strips the delimiters from the
//! piece stream, tells on which channel each piece belongs, and enforces an
//! optional budget of reasoning pieces.

use vstd::prelude::*;
use vstd::string::StringExecFns;

use crate::text::{chars_of, find_from, match_at, occurs_at, opt_view, string_of};

verus! {

// ── Occurrences ──────────────────────────────────────────────────────────────

/// The least position at or after `from` at which `pat` stands in `s`.
pub open spec fn first_at(s: Seq<char>, pat: Seq<char>, from: int) -> Option<int>
    decreases s.len() + 1 - from,
{
    if from + pat.len() > s.len() {
        None
    } else if occurs_at(s, pat, from) {
        Some(from)
    } else {
        first_at(s, pat, from + 1)
    }
}

proof fn lemma_first_at(s: Seq<char>, pat: Seq<char>, from: int)
    requires
        0 <= from,
    ensures
        match first_at(s, pat, from) {
            Some(i) => from <= i && occurs_at(s, pat, i) && forall|j: int|
                from <= j < i ==> !occurs_at(s, pat, j),
            None => forall|j: int| from <= j ==> !occurs_at(s, pat, j),
        },
    decreases s.len() + 1 - from,
{
    if from + pat.len() <= s.len() && !occurs_at(s, pat, from) {
        lemma_first_at(s, pat, from + 1);
    }
}

/// Position of the first `pat` in `cs` at or after `from`.
fn find_first(cs: &Vec<char>, pat: &Vec<char>, from: usize) -> (r: Option<usize>)
    ensures
        match r {
            Some(i) => first_at(cs@, pat@, from as int) == Some(i as int) && i + pat@.len()
                <= cs@.len(),
            None => first_at(cs@, pat@, from as int) is None,
        },
{
    let r = find_from(cs, pat, from);
    proof {
        lemma_first_at(cs@, pat@, from as int);
    }
    r
}

// ── The prompt's last delimiter ──────────────────────────────────────────────

/// `i` is the last position at which `pat` stands in `s`.
pub open spec fn last_at(s: Seq<char>, pat: Seq<char>, i: int) -> bool {
    occurs_at(s, pat, i) && forall|j: int| i < j ==> !occurs_at(s, pat, j)
}

/// The last `start` stands in `s` behind the last `end`.
pub open spec fn leaves_open(s: Seq<char>, start: Seq<char>, end: Seq<char>) -> bool {
    exists|i: int| #[trigger]
        occurs_at(s, start, i) && forall|j: int| i <= j ==> !#[trigger] occurs_at(s, end, j)
}

fn find_last(cs: &Vec<char>, pat: &Vec<char>) -> (r: Option<usize>)
    ensures
        match r {
            Some(i) => last_at(cs@, pat@, i as int),
            None => forall|j: int| !occurs_at(cs@, pat@, j),
        },
{
    let mut i: usize = cs.len();
    loop
        invariant
            i <= cs@.len(),
            forall|j: int| i < j ==> !occurs_at(cs@, pat@, j),
        decreases i,
    {
        if match_at(cs, pat, i) {
            return Some(i);
        }
        if i == 0 {
            return None;
        }
        i -= 1;
    }
}

/// Whether the assistant turn that a template has appended leaves a thinking
/// block open: the last opening delimiter stands behind the last closing one.
///
/// `rendered` is the part of the prompt that the template appended for the
/// assistant. With an empty delimiter the answer is no.
pub fn prompt_leaves_think_open(rendered: &str, start: &str, end: &str) -> (r: bool)
    ensures
        r == (start@.len() > 0 && end@.len() > 0 && leaves_open(rendered@, start@, end@)),
{
    let s = chars_of(start);
    let e = chars_of(end);
    if s.len() == 0 || e.len() == 0 {
        return false;
    }
    let cs = chars_of(rendered);
    match (find_last(&cs, &s), find_last(&cs, &e)) {
        (Some(i), Some(j)) => {
            proof {
                if i > j {
                    assert(occurs_at(rendered@, start@, i as int));
                } else {
                    assert forall|k: int| #[trigger]
                        occurs_at(rendered@, start@, k) implies exists|m: int|
                        k <= m && #[trigger] occurs_at(rendered@, end@, m) by {
                        assert(occurs_at(rendered@, end@, j as int));
                    }
                }
            }
            i > j
        },
        (Some(i), None) => {
            proof {
                assert(occurs_at(rendered@, start@, i as int));
            }
            true
        },
        (None, _) => false,
    }
}

// ── The splitter ─────────────────────────────────────────────────────────────

/// The text of `s[from..]` without delimiters, and the channel after the last
/// one. The nearest delimiter is taken first; where both stand at one position,
/// the closing one.
pub open spec fn stripped(
    s: Seq<char>,
    from: int,
    start: Seq<char>,
    end: Seq<char>,
    open: bool,
) -> (Seq<char>, bool)
    decreases s.len() - from,
{
    if start.len() == 0 || end.len() == 0 || from > s.len() {
        (Seq::empty(), open)
    } else {
        match (first_at(s, start, from), first_at(s, end, from)) {
            (None, None) => (s.subrange(from, s.len() as int), open),
            (o, c) => {
                let opens = o is Some && (c is None || o->0 < c->0);
                let at = if opens {
                    o->0
                } else {
                    c->0
                };
                let after = at + if opens {
                    start.len()
                } else {
                    end.len()
                };
                if from <= at && after <= s.len() {
                    let (rest, last) = stripped(s, after, start, end, opens);
                    (s.subrange(from, at) + rest, last)
                } else {
                    (Seq::empty(), open)
                }
            },
        }
    }
}

/// The state of a splitter.
pub struct SplitterV {
    pub open: bool,
    pub start: Seq<char>,
    pub end: Seq<char>,
    /// Reasoning pieces counted against the budget.
    pub count: nat,
    pub budget: Option<u32>,
    pub exceeded: bool,
    pub force_close: bool,
}

impl SplitterV {
    /// Delimiters are not empty, and the count stays within the budget.
    pub open spec fn valid(self) -> bool {
        &&& self.start.len() > 0
        &&& self.end.len() > 0
        &&& match self.budget {
            Some(b) => self.count <= b,
            None => self.count == 0 && !self.exceeded,
        }
        &&& self.force_close ==> self.exceeded
    }

    /// The state after one piece has been counted on the current channel.
    pub open spec fn counted(self) -> SplitterV {
        match self.budget {
            Some(b) if self.open && !self.exceeded => if self.count >= b {
                SplitterV { exceeded: true, force_close: true, ..self }
            } else {
                SplitterV { count: self.count + 1, ..self }
            },
            _ => self,
        }
    }

    /// The text of a piece without delimiters.
    pub open spec fn visible(self, piece: Seq<char>) -> Seq<char> {
        stripped(piece, 0, self.start, self.end, self.open).0
    }

    /// The state after a piece.
    pub open spec fn after(self, piece: Seq<char>) -> SplitterV {
        SplitterV {
            open: stripped(piece, 0, self.start, self.end, self.open).1,
            ..self
        }.counted()
    }

    /// The state once a forced close has been taken.
    pub open spec fn taken(self) -> SplitterV {
        SplitterV { force_close: false, ..self }
    }

    /// The state after a sequence of pieces.
    pub open spec fn after_all(self, pieces: Seq<Seq<char>>) -> SplitterV
        decreases pieces.len(),
    {
        if pieces.len() == 0 {
            self
        } else {
            self.after_all(pieces.drop_last()).after(pieces.last())
        }
    }
}

/// Tracks thinking-block boundaries across token pieces.
#[derive(Debug)]
pub struct ThinkSplitter {
    open: bool,
    thinking_start_token: String,
    thinking_end_token: String,
    thinking_token_count: u32,
    thinking_budget: Option<u32>,
    budget_exceeded: bool,
    force_close: bool,
}

impl View for ThinkSplitter {
    type V = SplitterV;

    closed spec fn view(&self) -> SplitterV {
        SplitterV {
            open: self.open,
            start: self.thinking_start_token@,
            end: self.thinking_end_token@,
            count: self.thinking_token_count as nat,
            budget: self.thinking_budget,
            exceeded: self.budget_exceeded,
            force_close: self.force_close,
        }
    }
}

/// The state of a fresh splitter.
pub open spec fn fresh(
    open: bool,
    budget: Option<u32>,
    start: Seq<char>,
    end: Seq<char>,
) -> SplitterV {
    SplitterV { open, start, end, count: 0, budget, exceeded: false, force_close: false }
}

/// A delimiter override; an empty one counts as absent.
pub open spec fn delimiter(given: Option<Seq<char>>, default: Seq<char>) -> Seq<char> {
    match given {
        Some(s) if s.len() > 0 => s,
        _ => default,
    }
}

fn delimiter_or(given: Option<String>, default: &str) -> (r: String)
    ensures
        r@ == delimiter(opt_view(given), default@),
{
    match given {
        Some(s) => if s.as_str().is_empty() {
            default.to_owned()
        } else {
            s
        },
        None => default.to_owned(),
    }
}

impl ThinkSplitter {
    /// A splitter for a prompt that does not open a thinking block.
    pub fn new() -> (r: Self)
        ensures
            r@ == fresh(false, None, "<think>"@, "</think>"@),
            r@.valid(),
    {
        ThinkSplitter::new_for_request(false, None, None, None)
    }

    /// A splitter for a prompt that ends inside a thinking block.
    pub fn new_qwen3_prefilled() -> (r: Self)
        ensures
            r@ == fresh(true, None, "<think>"@, "</think>"@),
            r@.valid(),
    {
        ThinkSplitter::new_for_request(true, None, None, None)
    }

    /// A splitter for one request. Delimiters that are absent or empty default
    /// to `<think>` and `</think>`.
    pub fn new_for_request(
        prompt_think_open: bool,
        thinking_budget: Option<u32>,
        thinking_start_token: Option<String>,
        thinking_end_token: Option<String>,
    ) -> (r: Self)
        ensures
            r@ == fresh(
                prompt_think_open,
                thinking_budget,
                delimiter(opt_view(thinking_start_token), "<think>"@),
                delimiter(opt_view(thinking_end_token), "</think>"@),
            ),
            r@.valid(),
    {
        proof {
            reveal_strlit("<think>");
            reveal_strlit("</think>");
        }
        ThinkSplitter {
            open: prompt_think_open,
            thinking_start_token: delimiter_or(thinking_start_token, "<think>"),
            thinking_end_token: delimiter_or(thinking_end_token, "</think>"),
            thinking_token_count: 0,
            thinking_budget,
            budget_exceeded: false,
            force_close: false,
        }
    }

    /// Whether the budget has just been exceeded: true on the first call after
    /// that, and never again.
    pub fn take_force_close(&mut self) -> (r: bool)
        ensures
            r == old(self)@.force_close,
            final(self)@ == old(self)@.taken(),
    {
        if self.force_close {
            self.force_close = false;
            true
        } else {
            false
        }
    }

    /// Processes a piece: its text without delimiters, and whether it belongs to
    /// the reasoning channel (the channel after the last delimiter in it).
    pub fn step(&mut self, piece: &str) -> (r: (String, bool))
        requires
            old(self)@.valid(),
        ensures
            r.0@ == old(self)@.visible(piece@),
            r.1 == final(self)@.open,
            final(self)@ == old(self)@.after(piece@),
            final(self)@.valid(),
    {
        let cs = chars_of(piece);
        let start = chars_of(self.thinking_start_token.as_str());
        let end = chars_of(self.thinking_end_token.as_str());
        let len: usize = cs.len();
        let mut out = String::new();
        let mut open = self.open;
        let mut from: usize = 0;
        let ghost whole = stripped(cs@, 0, start@, end@, self.open);
        proof {
            assert(out@ + whole.0 =~= whole.0);
        }
        loop
            invariant_except_break
                from <= len,
                len == cs@.len(),
                start@.len() > 0,
                end@.len() > 0,
                out@ + stripped(cs@, from as int, start@, end@, open).0 == whole.0,
                stripped(cs@, from as int, start@, end@, open).1 == whole.1,
            ensures
                out@ == whole.0,
                open == whole.1,
            decreases len - from,
        {
            let o = find_first(&cs, &start, from);
            let c = find_first(&cs, &end, from);
            proof {
                lemma_first_at(cs@, start@, from as int);
                lemma_first_at(cs@, end@, from as int);
            }
            let ghost before = out@;
            match (o, c) {
                (None, None) => {
                    out.append(string_of(&cs, from, len).as_str());
                    break;
                },
                (Some(o), None) => {
                    out.append(string_of(&cs, from, o).as_str());
                    open = true;
                    from = o + start.len();
                },
                (None, Some(c)) => {
                    out.append(string_of(&cs, from, c).as_str());
                    open = false;
                    from = c + end.len();
                },
                (Some(o), Some(c)) => if o < c {
                    out.append(string_of(&cs, from, o).as_str());
                    open = true;
                    from = o + start.len();
                } else {
                    out.append(string_of(&cs, from, c).as_str());
                    open = false;
                    from = c + end.len();
                },
            }
            proof {
                let rest = stripped(cs@, from as int, start@, end@, open).0;
                assert(out@ + rest =~= whole.0);
            }
        }
        self.open = open;
        self.account_thinking_piece();
        (out, self.open)
    }

    /// Counts one piece against the budget.
    fn account_thinking_piece(&mut self)
        requires
            old(self)@.valid(),
        ensures
            final(self)@ == old(self)@.counted(),
            final(self)@.valid(),
    {
        match self.thinking_budget {
            None => {},
            Some(budget) => if self.open && !self.budget_exceeded {
                if self.thinking_token_count >= budget {
                    self.budget_exceeded = true;
                    self.force_close = true;
                } else {
                    self.thinking_token_count = self.thinking_token_count + 1;
                }
            },
        }
    }
}

// ── Laws ─────────────────────────────────────────────────────────────────────

/// A piece without delimiters passes unchanged, on the channel it came on.
pub proof fn law_plain_piece_passes(s: SplitterV, piece: Seq<char>)
    requires
        s.valid(),
        forall|i: int| !occurs_at(piece, s.start, i),
        forall|i: int| !occurs_at(piece, s.end, i),
    ensures
        s.visible(piece) == piece,
        s.after(piece).open == s.open,
{
    lemma_first_at(piece, s.start, 0);
    lemma_first_at(piece, s.end, 0);
    assert(piece.subrange(0, piece.len() as int) =~= piece);
}

/// A lone closing delimiter (in which no opening one stands) is stripped and
/// switches to the answer channel; a lone opening one, to the reasoning channel.
pub proof fn law_lone_delimiters_switch(s: SplitterV)
    requires
        s.valid(),
        forall|i: int| !occurs_at(s.end, s.start, i),
        forall|i: int| !occurs_at(s.start, s.end, i),
    ensures
        s.visible(s.end) == Seq::<char>::empty(),
        !s.after(s.end).open,
        s.visible(s.start) == Seq::<char>::empty(),
        s.after(s.start).open,
{
    assert(s.end.subrange(0, s.end.len() as int) =~= s.end);
    assert(occurs_at(s.end, s.end, 0));
    lemma_lone(s.end, s.start, s.end, s.open);
    lemma_lone(s.start, s.start, s.end, s.open);
}

proof fn lemma_lone(tag: Seq<char>, start: Seq<char>, end: Seq<char>, open: bool)
    requires
        start.len() > 0,
        end.len() > 0,
        tag == start || tag == end,
        tag == end ==> forall|i: int| !occurs_at(end, start, i),
        tag == start ==> forall|i: int| !occurs_at(start, end, i),
    ensures
        stripped(tag, 0, start, end, open) == (Seq::<char>::empty(), tag == start),
{
    assert(tag.subrange(0, tag.len() as int) =~= tag);
    assert(occurs_at(tag, tag, 0));
    lemma_first_at(tag, start, 0);
    lemma_first_at(tag, end, 0);
    let n = tag.len() as int;
    lemma_first_at(tag, start, n);
    lemma_first_at(tag, end, n);
    assert(first_at(tag, start, n) is None);
    assert(first_at(tag, end, n) is None);
    assert(tag.subrange(n, n) =~= Seq::empty());
    assert(tag.subrange(0, 0) =~= Seq::empty());
    assert(Seq::<char>::empty() + Seq::<char>::empty() =~= Seq::<char>::empty());
    assert(stripped(tag, n, start, end, true) == (Seq::<char>::empty(), true));
    assert(stripped(tag, n, start, end, false) == (Seq::<char>::empty(), false));
}

/// Without a budget a close is never forced.
pub proof fn law_no_budget_never_forces(s: SplitterV, pieces: Seq<Seq<char>>)
    requires
        s.valid(),
        s.budget is None,
    ensures
        !s.after_all(pieces).force_close,
        s.after_all(pieces).budget is None,
    decreases pieces.len(),
{
    if pieces.len() > 0 {
        law_no_budget_never_forces(s, pieces.drop_last());
    }
    lemma_valid_kept(s, pieces);
}

proof fn lemma_valid_kept(s: SplitterV, pieces: Seq<Seq<char>>)
    requires
        s.valid(),
    ensures
        s.after_all(pieces).valid(),
        s.after_all(pieces).budget == s.budget,
        s.after_all(pieces).start == s.start,
        s.after_all(pieces).end == s.end,
    decreases pieces.len(),
{
    if pieces.len() > 0 {
        lemma_valid_kept(s, pieces.drop_last());
    }
}

/// Once the budget has been exceeded and the forced close taken, no later piece
/// forces another one.
pub proof fn law_force_close_fires_once(s: SplitterV, pieces: Seq<Seq<char>>)
    requires
        s.valid(),
        s.exceeded,
    ensures
        !s.taken().after_all(pieces).force_close,
        s.taken().after_all(pieces).exceeded,
    decreases pieces.len(),
{
    if pieces.len() > 0 {
        law_force_close_fires_once(s, pieces.drop_last());
    }
}

/// How many of the pieces were reasoning: they ended on the reasoning channel.
pub open spec fn reasoning_pieces(s: SplitterV, pieces: Seq<Seq<char>>) -> nat
    decreases pieces.len(),
{
    if pieces.len() == 0 {
        0
    } else {
        reasoning_pieces(s, pieces.drop_last()) + if s.after_all(pieces).open {
            1nat
        } else {
            0nat
        }
    }
}

/// With a budget of `b`, a close is forced as soon as more than `b` pieces were
/// reasoning, and not before, whatever the pieces hold and on whichever channel
/// the splitter starts.
pub proof fn law_budget_forces_on_overflow(
    open: bool,
    b: u32,
    start: Seq<char>,
    end: Seq<char>,
    pieces: Seq<Seq<char>>,
)
    requires
        start.len() > 0,
        end.len() > 0,
    ensures
        ({
            let s = fresh(open, Some(b), start, end);
            let n = reasoning_pieces(s, pieces);
            &&& s.after_all(pieces).force_close == (n > b)
            &&& s.after_all(pieces).exceeded == (n > b)
            &&& s.after_all(pieces).count == if n > b {
                b as nat
            } else {
                n
            }
        }),
    decreases pieces.len(),
{
    let s = fresh(open, Some(b), start, end);
    lemma_valid_kept(s, pieces);
    if pieces.len() > 0 {
        let shorter = pieces.drop_last();
        law_budget_forces_on_overflow(open, b, start, end, shorter);
        lemma_valid_kept(s, shorter);
        assert(s.after_all(pieces) == s.after_all(shorter).after(pieces.last()));
    }
}

/// A delimiter inside a piece is cut out of it, and the piece goes to the channel that
/// the delimiter opens: an opening one to the reasoning, a closing one to the answer.
/// `d` is the only delimiter in the piece, at the place `at`.
pub proof fn law_delimiter_inside_a_piece_switches(
    s: &mut ThinkSplitter,
    piece: &str,
    d: Seq<char>,
    other: Seq<char>,
    opens: bool,
    at: int,
    r: (String, bool),
)
    requires
        call_ensures(ThinkSplitter::step, (s, piece), r),
        d.len() > 0,
        other.len() > 0,
        opens ==> d == old(s)@.start && other == old(s)@.end,
        !opens ==> d == old(s)@.end && other == old(s)@.start,
        occurs_at(piece@, d, at),
        forall|i: int| i != at ==> !#[trigger] occurs_at(piece@, d, i),
        forall|i: int| !#[trigger] occurs_at(piece@, other, i),
    ensures
        r.0@ == piece@.subrange(0, at) + piece@.subrange(at + d.len(), piece@.len() as int),
        r.1 == opens,
{
    let p = piece@;
    let (start, end) = (old(s)@.start, old(s)@.end);
    let n = d.len() as int;
    lemma_first_at(p, d, 0);
    lemma_first_at(p, other, 0);
    lemma_first_at(p, d, at + n);
    lemma_first_at(p, other, at + n);
    assert(first_at(p, d, 0) == Some(at)) by {
        match first_at(p, d, 0) {
            Some(k) => {
                assert(occurs_at(p, d, k));
            },
            None => {
                assert(!occurs_at(p, d, at));
            },
        }
    }
    assert(first_at(p, d, at + n) is None) by {
        match first_at(p, d, at + n) {
            Some(k) => {
                assert(occurs_at(p, d, k));
            },
            None => {},
        }
    }
    assert(first_at(p, other, 0) is None);
    assert(first_at(p, other, at + n) is None);
    let rest = stripped(p, at + n, start, end, opens);
    assert(rest == (p.subrange(at + n, p.len() as int), opens));
    assert(stripped(p, 0, start, end, old(s)@.open) == (p.subrange(0, at) + rest.0, rest.1));
}

/// A piece without delimiters is handed on as it is, on the channel that the splitter
/// is on: at first that of the prompt. The delimiters are the request's, else the
/// usual ones.
pub proof fn law_plain_pieces_stay_on_their_channel(
    open: bool,
    budget: Option<u32>,
    start: Option<String>,
    end: Option<String>,
    fresh_splitter: ThinkSplitter,
    s: &mut ThinkSplitter,
    piece: &str,
    opening: Seq<char>,
    closing: Seq<char>,
    r: (String, bool),
)
    requires
        call_ensures(ThinkSplitter::new_for_request, (open, budget, start, end), fresh_splitter),
        *old(s) == fresh_splitter,
        call_ensures(ThinkSplitter::step, (s, piece), r),
        start matches Some(t) ==> opening == t@,
        start is None ==> opening == "<think>"@,
        end matches Some(t) ==> closing == t@,
        end is None ==> closing == "</think>"@,
        opening.len() > 0,
        closing.len() > 0,
        forall|i: int| !#[trigger] occurs_at(piece@, opening, i),
        forall|i: int| !#[trigger] occurs_at(piece@, closing, i),
    ensures
        r.0@ == piece@,
        r.1 == open,
{
    assert(old(s)@.start == opening);
    assert(old(s)@.end == closing);
    law_plain_piece_passes(old(s)@, piece@);
}

/// A prompt leaves the thinking block open when an opening delimiter stands in it behind
/// which no closing one does, and only then; empty delimiters open nothing.
pub proof fn law_last_delimiter_decides_the_channel(
    rendered: &str,
    start: &str,
    end: &str,
    r: bool,
    i: int,
)
    requires
        call_ensures(prompt_leaves_think_open, (rendered, start, end), r),
        start@.len() > 0,
        end@.len() > 0,
    ensures
        occurs_at(rendered@, start@, i) && (forall|j: int|
            i <= j ==> !#[trigger] occurs_at(rendered@, end@, j)) ==> r,
        occurs_at(rendered@, end@, i) && (forall|j: int|
            i < j ==> !#[trigger] occurs_at(rendered@, start@, j)) ==> !r,
        (forall|j: int| !#[trigger] occurs_at(rendered@, start@, j)) ==> !r,
{
    if occurs_at(rendered@, end@, i) && (forall|j: int|
        i < j ==> !#[trigger] occurs_at(rendered@, start@, j)) && r {
        let k = choose|k: int| #[trigger]
            occurs_at(rendered@, start@, k) && forall|j: int|
                k <= j ==> !#[trigger] occurs_at(rendered@, end@, j);
        assert(k <= i);
    }
}

/// A piece with several delimiters is split at each of them: what stands in front of the
/// first is kept, and what stands behind it is split as a piece of its own, on the
/// channel that the first one opens. `at` is the place of the first delimiter.
pub proof fn law_pieces_are_split_at_every_delimiter(
    s: &mut ThinkSplitter,
    piece: &str,
    d: Seq<char>,
    other: Seq<char>,
    opens: bool,
    at: int,
    r: (String, bool),
)
    requires
        call_ensures(ThinkSplitter::step, (s, piece), r),
        d.len() > 0,
        other.len() > 0,
        opens ==> d == old(s)@.start && other == old(s)@.end,
        !opens ==> d == old(s)@.end && other == old(s)@.start,
        occurs_at(piece@, d, at),
        forall|i: int| i < at ==> !#[trigger] occurs_at(piece@, d, i),
        forall|i: int| i <= at ==> !#[trigger] occurs_at(piece@, other, i),
    ensures
        ({
            let rest = piece@.subrange(at + d.len(), piece@.len() as int);
            let behind = SplitterV { open: opens, ..old(s)@ };
            &&& r.0@ == piece@.subrange(0, at) + behind.visible(rest)
            &&& r.1 == behind.after(rest).open
        }),
{
    let p = piece@;
    let (start, end) = (old(s)@.start, old(s)@.end);
    let n = d.len() as int;
    lemma_first_at(p, d, 0);
    lemma_first_at(p, other, 0);
    assert(first_at(p, d, 0) == Some(at)) by {
        match first_at(p, d, 0) {
            Some(k) => {
                assert(occurs_at(p, d, k));
            },
            None => {
                assert(!occurs_at(p, d, at));
            },
        }
    }
    match first_at(p, other, 0) {
        Some(k) => {
            assert(occurs_at(p, other, k));
        },
        None => {},
    }
    lemma_stripped_shift(p, at + n, 0, start, end, opens);
}

proof fn lemma_first_at_shift(p: Seq<char>, pat: Seq<char>, k: int, from: int)
    requires
        0 <= k <= p.len(),
        0 <= from,
    ensures
        first_at(p.subrange(k, p.len() as int), pat, from) == match first_at(p, pat, from + k) {
            Some(i) => Some(i - k),
            None => None,
        },
    decreases p.len() + 1 - from - k,
{
    let q = p.subrange(k, p.len() as int);
    if from + pat.len() <= q.len() {
        assert(q.subrange(from, from + pat.len()) =~= p.subrange(
            from + k,
            from + k + pat.len(),
        ));
        if !occurs_at(q, pat, from) {
            lemma_first_at_shift(p, pat, k, from + 1);
        }
    }
}

proof fn lemma_stripped_shift(
    p: Seq<char>,
    k: int,
    from: int,
    start: Seq<char>,
    end: Seq<char>,
    open: bool,
)
    requires
        0 <= k <= p.len(),
        0 <= from,
        start.len() > 0,
        end.len() > 0,
    ensures
        stripped(p.subrange(k, p.len() as int), from, start, end, open) == stripped(
            p,
            from + k,
            start,
            end,
            open,
        ),
    decreases p.len() - from - k,
{
    let q = p.subrange(k, p.len() as int);
    if from <= q.len() {
        lemma_first_at_shift(p, start, k, from);
        lemma_first_at_shift(p, end, k, from);
        lemma_first_at(q, start, from);
        lemma_first_at(q, end, from);
        lemma_first_at(p, start, from + k);
        lemma_first_at(p, end, from + k);
        match (first_at(q, start, from), first_at(q, end, from)) {
            (None, None) => {
                assert(q.subrange(from, q.len() as int) =~= p.subrange(
                    from + k,
                    p.len() as int,
                ));
            },
            (o, c) => {
                let opens = o is Some && (c is None || o->0 < c->0);
                let at = if opens {
                    o->0
                } else {
                    c->0
                };
                let after = at + if opens {
                    start.len()
                } else {
                    end.len()
                };
                lemma_stripped_shift(p, k, after, start, end, opens);
                assert(q.subrange(from, at) =~= p.subrange(from + k, at + k));
            },
        }
    }
}

/// A splitter starts on the answer, with the usual delimiters, or on the reasoning where
/// the prompt opened a block. A forced close is told once.
pub proof fn law_splitters_start_on_their_channel(
    plain: ThinkSplitter,
    prefilled: ThinkSplitter,
    s: &mut ThinkSplitter,
    told: bool,
)
    requires
        call_ensures(ThinkSplitter::new, (), plain),
        call_ensures(ThinkSplitter::new_qwen3_prefilled, (), prefilled),
        call_ensures(ThinkSplitter::take_force_close, (s,), told),
    ensures
        !plain@.open,
        plain@.start == "<think>"@,
        plain@.end == "</think>"@,
        plain@.budget is None,
        prefilled@.open,
        prefilled@.start == "<think>"@,
        prefilled@.end == "</think>"@,
        prefilled@.budget is None,
        told == old(s)@.force_close,
        !final(s)@.force_close,
        final(s)@.open == old(s)@.open,
        final(s)@.count == old(s)@.count,
{
}

} // verus!
