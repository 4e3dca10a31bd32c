//! The grammar engine: patterns over token sequences that respect bracket
//! nesting, and the search for every place where a pattern matches.
use crate::lexer::{Lexeme, LexemeType};
use std::ops::Range;
use vstd::prelude::*;

verus! {

/// How many tokens a step of a pattern takes.
#[derive(Debug, Clone, Copy, PartialEq, Eq, Structural)]
pub enum Quantity {
    /// Exactly this many tokens, each of which must be accepted.
    Finite(usize),
    /// As many consecutive accepted tokens as there are, possibly none.
    Infinite,
}

/// What a matcher asks of the nesting depth at a token.
#[derive(Debug, Clone, Copy, PartialEq, Eq, Structural)]
pub enum DepthCriteria {
    /// The token stands outside all brackets that count.
    Zero,
    /// The token stands inside a bracket that counts.
    OneOrMore,
    /// The token may stand anywhere.
    Any,
}

/// Which brackets count towards the nesting depth.
#[derive(Debug, Clone, Copy, PartialEq, Eq, Structural)]
pub enum DepthType {
    /// `(` and `)`.
    Parentheses,
    /// `{` and `}`.
    CurlyBrackets,
    /// Both kinds: the depth in parentheses and the depth in curly brackets,
    /// added up.
    Both,
}

/// What a matcher asks of the token itself.
#[derive(Debug, Clone, Copy, PartialEq, Eq, Structural)]
pub enum LexemeTest {
    /// Every token passes.
    Any,
    /// Tokens of this kind pass.
    Is(LexemeType),
    /// Tokens of every other kind pass.
    IsNot(LexemeType),
}

impl LexemeTest {
    /// Whether `lexeme` passes this test.
    pub open spec fn accepts(self, lexeme: Lexeme) -> bool {
        match self {
            LexemeTest::Any => true,
            LexemeTest::Is(kind) => lexeme.kind() == kind,
            LexemeTest::IsNot(kind) => lexeme.kind() != kind,
        }
    }

    /// Whether `lexeme` passes this test.
    pub fn test(&self, lexeme: &Lexeme) -> (b: bool)
        ensures
            b == self.accepts(*lexeme),
    {
        match self {
            LexemeTest::Any => true,
            LexemeTest::Is(kind) => LexemeType::from(*lexeme) == *kind,
            LexemeTest::IsNot(kind) => LexemeType::from(*lexeme) != *kind,
        }
    }
}

impl DepthCriteria {
    /// Whether the depth `depth` is as asked.
    pub open spec fn holds(self, depth: int) -> bool {
        match self {
            DepthCriteria::Zero => depth == 0,
            DepthCriteria::OneOrMore => depth >= 1,
            DepthCriteria::Any => true,
        }
    }
}

impl DepthType {
    /// Whether `lexeme` opens a bracket that this depth counts.
    pub open spec fn opens(self, lexeme: Lexeme) -> bool {
        match self {
            DepthType::Parentheses => lexeme == Lexeme::LeftParentheses,
            DepthType::CurlyBrackets => lexeme == Lexeme::LeftCurlyBracket,
            DepthType::Both => lexeme == Lexeme::LeftParentheses || lexeme
                == Lexeme::LeftCurlyBracket,
        }
    }

    /// Whether `lexeme` closes a bracket that this depth counts.
    pub open spec fn closes(self, lexeme: Lexeme) -> bool {
        match self {
            DepthType::Parentheses => lexeme == Lexeme::RightParentheses,
            DepthType::CurlyBrackets => lexeme == Lexeme::RightCurlyBracket,
            DepthType::Both => lexeme == Lexeme::RightParentheses || lexeme
                == Lexeme::RightCurlyBracket,
        }
    }

    /// Whether `lexeme` opens a bracket that this depth counts.
    fn is_opening(&self, lexeme: &Lexeme) -> (b: bool)
        ensures
            b == self.opens(*lexeme),
    {
        match self {
            DepthType::Parentheses => matches!(lexeme, Lexeme::LeftParentheses),
            DepthType::CurlyBrackets => matches!(lexeme, Lexeme::LeftCurlyBracket),
            DepthType::Both => matches!(lexeme, Lexeme::LeftParentheses | Lexeme::LeftCurlyBracket),
        }
    }

    /// Whether `lexeme` closes a bracket that this depth counts.
    fn is_closing(&self, lexeme: &Lexeme) -> (b: bool)
        ensures
            b == self.closes(*lexeme),
    {
        match self {
            DepthType::Parentheses => matches!(lexeme, Lexeme::RightParentheses),
            DepthType::CurlyBrackets => matches!(lexeme, Lexeme::RightCurlyBracket),
            DepthType::Both => matches!(
                lexeme,
                Lexeme::RightParentheses | Lexeme::RightCurlyBracket
            ),
        }
    }
}

/// The nesting level once the first `n` tokens have been read: the brackets
/// opened among them minus the brackets closed among them.
pub open spec fn level_after(tokens: Seq<Lexeme>, kind: DepthType, n: int) -> int
    decreases n,
{
    if n <= 0 || n > tokens.len() {
        0
    } else {
        level_after(tokens, kind, n - 1) + (if kind.opens(tokens[n - 1]) {
            1int
        } else {
            0int
        }) - (if kind.closes(tokens[n - 1]) {
            1int
        } else {
            0int
        })
    }
}

/// The nesting depth at token `i`: a closing bracket already stands outside
/// the pair it closes, an opening bracket still does.
pub open spec fn depth_at(tokens: Seq<Lexeme>, kind: DepthType, i: int) -> int {
    level_after(tokens, kind, i) - (if kind.closes(tokens[i]) {
        1int
    } else {
        0int
    })
}

/// The nesting level is no further from zero than the tokens read are many.
proof fn level_bounds(tokens: Seq<Lexeme>, kind: DepthType, n: int)
    requires
        0 <= n <= tokens.len(),
    ensures
        -n <= level_after(tokens, kind, n) <= n,
    decreases n,
{
    if n > 0 {
        level_bounds(tokens, kind, n - 1);
    }
}

/// The depth of every token of `tokens`, in order. A depth is counted in
/// 128 bits, which no number of tokens can overflow.
fn create_depth_table(tokens: &[Lexeme], kind: DepthType) -> (depth: Vec<i128>)
    ensures
        depth@.len() == tokens@.len(),
        forall|i: int| 0 <= i < tokens@.len() ==> depth@[i] == depth_at(tokens@, kind, i),
{
    let mut depth: Vec<i128> = Vec::new();
    let mut curr_depth: i128 = 0;
    let mut i: usize = 0;
    while i < tokens.len()
        invariant
            i <= tokens@.len(),
            depth@.len() == i,
            curr_depth == level_after(tokens@, kind, i as int),
            forall|j: int| 0 <= j < i ==> depth@[j] == depth_at(tokens@, kind, j),
        decreases tokens@.len() - i,
    {
        proof {
            level_bounds(tokens@, kind, i as int);
        }
        let closing = kind.is_closing(&tokens[i]);
        let opening = kind.is_opening(&tokens[i]);
        let here: i128 = if closing {
            curr_depth - 1
        } else {
            curr_depth
        };
        depth.push(here);
        curr_depth = here;
        if opening {
            curr_depth = curr_depth + 1;
        }
        i = i + 1;
    }
    depth
}

/// A test on one token and on the nesting depth at which it stands.
#[derive(Debug, Clone, Copy, PartialEq, Eq)]
pub struct LexemeMatcher(pub LexemeTest, pub (DepthCriteria, DepthType));

impl LexemeMatcher {
    /// A matcher for `test`; without a `depth` it asks for depth zero,
    /// counting both kinds of bracket.
    pub fn new(test: LexemeTest, depth: Option<(DepthCriteria, DepthType)>) -> (r: Self)
        ensures
            r.0 == test,
            r.1 == match depth {
                Some(d) => d,
                None => (DepthCriteria::Zero, DepthType::Both),
            },
    {
        match depth {
            Some(d) => LexemeMatcher(test, d),
            None => LexemeMatcher(test, (DepthCriteria::Zero, DepthType::Both)),
        }
    }

    /// Whether the matcher accepts `lexeme` at the depth `depth`.
    pub open spec fn accepts(self, lexeme: Lexeme, depth: int) -> bool {
        self.0.accepts(lexeme) && self.1.0.holds(depth)
    }

    /// Whether token `i` of `tokens` exists and is accepted.
    pub open spec fn accepts_at(self, tokens: Seq<Lexeme>, i: int) -> bool {
        0 <= i < tokens.len() && self.accepts(tokens[i], depth_at(tokens, self.1.1, i))
    }

    /// Whether the tokens from `from` up to `to` are all accepted.
    pub open spec fn accepts_all(self, tokens: Seq<Lexeme>, from: int, to: int) -> bool {
        forall|j: int| from <= j < to ==> self.accepts_at(tokens, j)
    }

    /// Where the longest run of accepted tokens that starts at `from` ends.
    pub open spec fn run_end(self, tokens: Seq<Lexeme>, from: int) -> int
        decreases tokens.len() - from,
    {
        if self.accepts_at(tokens, from) {
            self.run_end(tokens, from + 1)
        } else {
            from
        }
    }

    /// Whether the matcher accepts `lexeme` at the depth `depth`.
    fn matches(&self, lexeme: &Lexeme, depth: i128) -> (b: bool)
        ensures
            b == self.accepts(*lexeme, depth as int),
    {
        self.0.test(lexeme) && match (self.1).0 {
            DepthCriteria::Zero => depth == 0,
            DepthCriteria::OneOrMore => depth >= 1,
            DepthCriteria::Any => true,
        }
    }
}

/// The depth of every token of one token sequence, for each way of counting.
struct DepthTables {
    parentheses: Vec<i128>,
    curly_brackets: Vec<i128>,
    both: Vec<i128>,
}

impl DepthTables {
    /// Whether the tables hold the depths of `tokens`.
    spec fn describes(&self, tokens: Seq<Lexeme>) -> bool {
        &&& self.parentheses@.len() == tokens.len()
        &&& self.curly_brackets@.len() == tokens.len()
        &&& self.both@.len() == tokens.len()
        &&& forall|i: int|
            0 <= i < tokens.len() ==> self.parentheses@[i] == depth_at(
                tokens,
                DepthType::Parentheses,
                i,
            )
        &&& forall|i: int|
            0 <= i < tokens.len() ==> self.curly_brackets@[i] == depth_at(
                tokens,
                DepthType::CurlyBrackets,
                i,
            )
        &&& forall|i: int|
            0 <= i < tokens.len() ==> self.both@[i] == depth_at(tokens, DepthType::Both, i)
    }

    /// The depths of `tokens`.
    fn new(tokens: &[Lexeme]) -> (r: Self)
        ensures
            r.describes(tokens@),
    {
        DepthTables {
            parentheses: create_depth_table(tokens, DepthType::Parentheses),
            curly_brackets: create_depth_table(tokens, DepthType::CurlyBrackets),
            both: create_depth_table(tokens, DepthType::Both),
        }
    }

    /// Whether `matcher` accepts token `i`.
    fn accepts_at(&self, matcher: &LexemeMatcher, tokens: &[Lexeme], i: usize) -> (b: bool)
        requires
            self.describes(tokens@),
            i < tokens@.len(),
        ensures
            b == matcher.accepts_at(tokens@, i as int),
    {
        let depth = match (matcher.1).1 {
            DepthType::CurlyBrackets => self.curly_brackets[i],
            DepthType::Parentheses => self.parentheses[i],
            DepthType::Both => self.both[i],
        };
        matcher.matches(&tokens[i], depth)
    }

    /// Whether `matcher` accepts every token from `from` up to `to`.
    fn accepts_all(&self, matcher: &LexemeMatcher, tokens: &[Lexeme], from: usize, to: usize) -> (b:
        bool)
        requires
            self.describes(tokens@),
            from <= to <= tokens@.len(),
        ensures
            b == matcher.accepts_all(tokens@, from as int, to as int),
    {
        let mut j: usize = from;
        while j < to
            invariant
                from <= j <= to <= tokens@.len(),
                self.describes(tokens@),
                matcher.accepts_all(tokens@, from as int, j as int),
            decreases to - j,
        {
            if !self.accepts_at(matcher, tokens, j) {
                return false;
            }
            j = j + 1;
        }
        true
    }

    /// Where the longest run of tokens that `matcher` accepts from `from` on
    /// ends.
    fn run_end(&self, matcher: &LexemeMatcher, tokens: &[Lexeme], from: usize) -> (end: usize)
        requires
            self.describes(tokens@),
            from <= tokens@.len(),
        ensures
            end == matcher.run_end(tokens@, from as int),
            from <= end <= tokens@.len(),
    {
        let mut ptr: usize = from;
        while ptr < tokens.len() && self.accepts_at(matcher, tokens, ptr)
            invariant
                from <= ptr <= tokens@.len(),
                self.describes(tokens@),
                matcher.accepts_all(tokens@, from as int, ptr as int),
            decreases tokens@.len() - ptr,
        {
            ptr = ptr + 1;
        }
        proof {
            run_end_is(*matcher, tokens@, from as int, ptr as int);
        }
        ptr
    }
}

/// One step of a pattern: which tokens it takes, and how many.
pub type Step = (LexemeMatcher, Quantity);

/// How far a match has come: the next token to read and the ranges that the
/// steps so far have taken.
pub type Progress = (int, Seq<Range<usize>>);

/// The progress of a match that starts at `start`, after its first `k`
/// steps; `None` if one of them failed.
pub open spec fn progress_after(steps: Seq<Step>, tokens: Seq<Lexeme>, start: int, k: int) -> Option<
    Progress,
>
    decreases k,
{
    if k <= 0 || k > steps.len() {
        Some((start, Seq::<Range<usize>>::empty()))
    } else {
        match progress_after(steps, tokens, start, k - 1) {
            None => None,
            Some((ptr, taken)) => {
                let (matcher, quantity) = steps[k - 1];
                match quantity {
                    Quantity::Finite(num) => {
                        if ptr < tokens.len() && ptr + num <= tokens.len() && matcher.accepts_all(
                            tokens,
                            ptr,
                            ptr + num,
                        ) {
                            Some(
                                (
                                    ptr + num,
                                    taken.push(
                                        Range { start: ptr as usize, end: (ptr + num) as usize },
                                    ),
                                ),
                            )
                        } else {
                            None
                        }
                    },
                    Quantity::Infinite => {
                        let end = matcher.run_end(tokens, ptr);
                        Some((end, taken.push(Range { start: ptr as usize, end: end as usize })))
                    },
                }
            },
        }
    }
}

/// The ranges that the steps take when the whole pattern matches at `start`,
/// one range for each step; `None` when it does not match there.
pub open spec fn match_at(steps: Seq<Step>, tokens: Seq<Lexeme>, start: int) -> Option<
    Seq<Range<usize>>,
> {
    match progress_after(steps, tokens, start, steps.len() as int) {
        None => None,
        Some((_, taken)) => Some(taken),
    }
}

/// The matches that start before token `n`, leftmost first.
pub open spec fn matches_before(steps: Seq<Step>, tokens: Seq<Lexeme>, n: int) -> Seq<
    Seq<Range<usize>>,
>
    decreases n,
{
    if n <= 0 {
        Seq::empty()
    } else {
        let earlier = matches_before(steps, tokens, n - 1);
        match match_at(steps, tokens, n - 1) {
            None => earlier,
            Some(taken) => earlier.push(taken),
        }
    }
}

/// Every match of the pattern in `tokens`, leftmost first.
pub open spec fn all_matches(steps: Seq<Step>, tokens: Seq<Lexeme>) -> Seq<Seq<Range<usize>>> {
    matches_before(steps, tokens, tokens.len() as int)
}

/// The contents of each vector of `v`.
pub open spec fn contents(v: Seq<Vec<Range<usize>>>) -> Seq<Seq<Range<usize>>> {
    Seq::new(v.len(), |i: int| v[i]@)
}

/// A run of accepted tokens ends inside the tokens, at or after its start,
/// and holds accepted tokens only; the token after it, if any, is refused.
pub proof fn run_end_properties(matcher: LexemeMatcher, tokens: Seq<Lexeme>, from: int)
    requires
        0 <= from <= tokens.len(),
    ensures
        from <= matcher.run_end(tokens, from) <= tokens.len(),
        matcher.accepts_all(tokens, from, matcher.run_end(tokens, from)),
        !matcher.accepts_at(tokens, matcher.run_end(tokens, from)),
    decreases tokens.len() - from,
{
    if matcher.accepts_at(tokens, from) {
        run_end_properties(matcher, tokens, from + 1);
    }
}

/// A run that holds accepted tokens only and is followed by a refused one
/// is the longest run.
proof fn run_end_is(matcher: LexemeMatcher, tokens: Seq<Lexeme>, from: int, end: int)
    requires
        0 <= from <= end <= tokens.len(),
        matcher.accepts_all(tokens, from, end),
        !matcher.accepts_at(tokens, end),
    ensures
        matcher.run_end(tokens, from) == end,
    decreases end - from,
{
    if from < end {
        assert(matcher.accepts_at(tokens, from));
        run_end_is(matcher, tokens, from + 1, end);
    }
}

/// Once a step has failed, the match has failed.
proof fn failure_stays(steps: Seq<Step>, tokens: Seq<Lexeme>, start: int, k: int, later: int)
    requires
        0 <= k <= later <= steps.len(),
        progress_after(steps, tokens, start, k) is None,
    ensures
        progress_after(steps, tokens, start, later) is None,
    decreases later - k,
{
    if k < later {
        failure_stays(steps, tokens, start, k, later - 1);
    }
}

/// The shape of the ranges of a match in progress: one for each step so
/// far, each beginning where the one before ended, the first at `start`, the
/// last ending at the next token to read, none beyond the tokens, and that of
/// a step with a fixed count as long as the count.
pub open spec fn well_formed_progress(
    steps: Seq<Step>,
    tokens: Seq<Lexeme>,
    start: int,
    k: int,
    progress: Progress,
) -> bool {
    let (ptr, taken) = progress;
    &&& start <= ptr <= tokens.len()
    &&& taken.len() == k
    &&& forall|j: int|
        0 <= j < k ==> (#[trigger] taken[j]).start <= taken[j].end <= tokens.len()
    &&& k > 0 ==> taken[0].start == start && taken[k - 1].end == ptr
    &&& forall|j: int| 0 < j < k ==> (#[trigger] taken[j]).start == taken[j - 1].end
    &&& forall|j: int|
        0 <= j < k ==> (steps[j].1 matches Quantity::Finite(num) ==> (#[trigger] taken[j]).end
            - taken[j].start == num)
}

/// The ranges of a match in progress are well formed.
pub proof fn progress_is_well_formed(steps: Seq<Step>, tokens: Seq<Lexeme>, start: int, k: int)
    requires
        tokens.len() <= usize::MAX,
        0 <= start <= tokens.len(),
        0 <= k <= steps.len(),
        progress_after(steps, tokens, start, k) is Some,
    ensures
        well_formed_progress(steps, tokens, start, k, progress_after(steps, tokens, start, k)->0),
    decreases k,
{
    if k > 0 {
        let before = progress_after(steps, tokens, start, k - 1)->0;
        progress_is_well_formed(steps, tokens, start, k - 1);
        let (matcher, quantity) = steps[k - 1];
        if quantity is Infinite {
            run_end_properties(matcher, tokens, before.0);
        }
        let (ptr, taken) = progress_after(steps, tokens, start, k)->0;
        assert forall|j: int| 0 <= j < k - 1 implies taken[j] == before.1[j] by {}
    }
}

/// The shape of the ranges of a match: one for each step, each beginning
/// where the one before ended, the first at a token, none beyond the tokens,
/// and that of a step with a fixed count as long as the count.
pub open spec fn well_formed_match(
    steps: Seq<Step>,
    tokens: Seq<Lexeme>,
    taken: Seq<Range<usize>>,
) -> bool {
    &&& taken.len() == steps.len()
    &&& forall|j: int|
        0 <= j < taken.len() ==> (#[trigger] taken[j]).start <= taken[j].end <= tokens.len()
    &&& taken.len() > 0 ==> taken[0].start < tokens.len()
    &&& forall|j: int| 0 < j < taken.len() ==> (#[trigger] taken[j]).start == taken[j - 1].end
    &&& forall|j: int|
        0 <= j < taken.len() ==> (steps[j].1 matches Quantity::Finite(num) ==> (
        #[trigger] taken[j]).end - taken[j].start == num)
}

/// The ranges of a match stand in the order of the steps.
pub proof fn ranges_ascend(
    steps: Seq<Step>,
    tokens: Seq<Lexeme>,
    taken: Seq<Range<usize>>,
    a: int,
    b: int,
)
    requires
        well_formed_match(steps, tokens, taken),
        0 <= a <= b < taken.len(),
    ensures
        taken[a].start <= taken[b].start,
        taken[a].end <= taken[b].end,
        taken[a].start <= taken[b].end <= tokens.len(),
        a < b ==> taken[a].end <= taken[b].start,
    decreases b - a,
{
    if a < b {
        ranges_ascend(steps, tokens, taken, a, b - 1);
    }
}

/// What the steps from `first` to `last` take together is less than all
/// the tokens, if a step outside them takes a token.
pub proof fn span_is_smaller(
    steps: Seq<Step>,
    tokens: Seq<Lexeme>,
    taken: Seq<Range<usize>>,
    first: int,
    last: int,
    other: int,
)
    requires
        well_formed_match(steps, tokens, taken),
        0 <= first <= last < taken.len(),
        0 <= other < taken.len(),
        other < first || last < other,
        steps[other].1 matches Quantity::Finite(num) && num >= 1,
    ensures
        taken[first].start <= taken[last].end <= tokens.len(),
        taken[last].end - taken[first].start < tokens.len(),
{
    ranges_ascend(steps, tokens, taken, first, last);
    if other < first {
        ranges_ascend(steps, tokens, taken, other, first);
    } else {
        ranges_ascend(steps, tokens, taken, last, other);
    }
}

/// Every match that `matches_before` lists has well-formed ranges.
pub proof fn listed_matches_are_well_formed(steps: Seq<Step>, tokens: Seq<Lexeme>, n: int, i: int)
    requires
        tokens.len() <= usize::MAX,
        0 <= n <= tokens.len(),
        0 <= i < matches_before(steps, tokens, n).len(),
    ensures
        well_formed_match(steps, tokens, matches_before(steps, tokens, n)[i]),
    decreases n,
{
    let earlier = matches_before(steps, tokens, n - 1);
    if i < earlier.len() {
        listed_matches_are_well_formed(steps, tokens, n - 1, i);
    } else {
        progress_is_well_formed(steps, tokens, n - 1, steps.len() as int);
    }
}

/// The matches are listed leftmost first: the first one starts no later
/// than any other.
pub proof fn matches_are_ordered(steps: Seq<Step>, tokens: Seq<Lexeme>, n: int, i: int, j: int)
    requires
        tokens.len() <= usize::MAX,
        0 <= n <= tokens.len(),
        steps.len() > 0,
        0 <= i <= j < matches_before(steps, tokens, n).len(),
    ensures
        matches_before(steps, tokens, n)[i].len() > 0,
        matches_before(steps, tokens, n)[j].len() > 0,
        matches_before(steps, tokens, n)[i][0].start <= matches_before(steps, tokens, n)[j][0].start
            < n,
    decreases n,
{
    let earlier = matches_before(steps, tokens, n - 1);
    if j < earlier.len() {
        matches_are_ordered(steps, tokens, n - 1, i, j);
    } else {
        let k = steps.len() as int;
        progress_is_well_formed(steps, tokens, n - 1, k);
        if i < earlier.len() {
            matches_are_ordered(steps, tokens, n - 1, i, i);
        }
    }
}

/// An ordered list of steps, matched one after the other.
#[derive(Debug, Clone)]
pub struct LexemePattern {
    characters: Vec<(LexemeMatcher, Quantity)>,
}

impl View for LexemePattern {
    type V = Seq<Step>;

    closed spec fn view(&self) -> Seq<Step> {
        self.characters@
    }
}

impl LexemePattern {
    /// The pattern that matches `characters` in their order.
    pub fn new(characters: Vec<(LexemeMatcher, Quantity)>) -> (r: Self)
        ensures
            r@ == characters@,
    {
        Self { characters }
    }

    /// Tries the steps from token `start` on; gives the ranges they take if
    /// all succeed.
    fn match_from(&self, lexemes: &[Lexeme], start: usize, depths: &DepthTables) -> (r: Option<
        Vec<Range<usize>>,
    >)
        requires
            start < lexemes@.len(),
            depths.describes(lexemes@),
        ensures
            match r {
                Some(ranges) => match_at(self@, lexemes@, start as int) == Some(ranges@),
                None => match_at(self@, lexemes@, start as int) is None,
            },
    {
        let mut ptr: usize = start;
        let mut ranges: Vec<Range<usize>> = Vec::new();
        let mut k: usize = 0;
        while k < self.characters.len()
            invariant
                k <= self@.len(),
                self@ == self.characters@,
                start <= ptr <= lexemes@.len(),
                depths.describes(lexemes@),
                progress_after(self@, lexemes@, start as int, k as int) == Some(
                    (ptr as int, ranges@),
                ),
            decreases self@.len() - k,
        {
            let matcher = self.characters[k].0;
            let quantity = self.characters[k].1;
            match quantity {
                Quantity::Finite(num) => {
                    if ptr >= lexemes.len() || num > lexemes.len() - ptr || !depths.accepts_all(
                        &matcher,
                        lexemes,
                        ptr,
                        ptr + num,
                    ) {
                        proof {
                            failure_stays(
                                self@,
                                lexemes@,
                                start as int,
                                k as int + 1,
                                self@.len() as int,
                            );
                        }
                        return None;
                    }
                    ranges.push(ptr..ptr + num);
                    ptr = ptr + num;
                },
                Quantity::Infinite => {
                    let end = depths.run_end(&matcher, lexemes, ptr);
                    ranges.push(ptr..end);
                    ptr = end;
                },
            }
            k = k + 1;
        }
        Some(ranges)
    }

    /// Every place where the whole pattern matches in `lexemes`, leftmost
    /// first, each with the range of tokens that each step takes.
    pub fn matches(&self, lexemes: &[Lexeme]) -> (out: Vec<Vec<Range<usize>>>)
        ensures
            contents(out@) == all_matches(self@, lexemes@),
    {
        let mut out: Vec<Vec<Range<usize>>> = Vec::new();
        let depths = DepthTables::new(lexemes);
        let mut i: usize = 0;
        assert(contents(out@) =~= matches_before(self@, lexemes@, 0));
        while i < lexemes.len()
            invariant
                i <= lexemes@.len(),
                depths.describes(lexemes@),
                contents(out@) == matches_before(self@, lexemes@, i as int),
            decreases lexemes@.len() - i,
        {
            let found = self.match_from(lexemes, i, &depths);
            if let Some(ranges) = found {
                let ghost before = out@;
                out.push(ranges);
                assert(contents(out@) =~= contents(before).push(ranges@));
            }
            i = i + 1;
        }
        out
    }
}

} // verus!
