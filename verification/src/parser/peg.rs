//! Parsing expressions: what they match, and the matcher.
//!
//! A parsing expression reads characters from a place on and either fails or stops at a later
//! place with the parse tree of the rules it went through. Choices are ordered and repetition
//! is greedy, so there is at most one outcome.
use super::grammar;
use super::rule::Rule;
use crate::text;
use vstd::prelude::*;

verus! {

/// A class of characters.
#[derive(Clone, Copy, Debug, PartialEq, Eq, Structural)]
pub enum Class {
    Digit,
    HexDigit,
    OctalDigit,
    NameStart,
    NameChar,
    AsciiStart,
    AsciiChar,
    Any,
    NotBacktick,
    NotSingleQuote,
    NotDoubleQuote,
}

/// A parsing expression.
#[derive(Debug)]
pub enum Peg {
    /// The text, letter for letter.
    Lit(&'static str),
    /// The lower case word in any ASCII case, where no name goes on behind it.
    Word(&'static str),
    /// One character of a class.
    One(Class),
    /// Any amount of white space and line comments.
    Gap,
    /// The end of the input.
    End,
    /// A rule of the grammar; it becomes a node of the parse tree.
    Rule(Rule),
    /// One after the other.
    Chain(Box<Peg>, Box<Peg>),
    /// The first, or else the second.
    Either(Box<Peg>, Box<Peg>),
    /// The expression or nothing.
    Maybe(Box<Peg>),
    /// The expression as often as it matches.
    Many(Box<Peg>),
    /// Nothing, where the expression matches.
    Ahead(Box<Peg>),
    /// Nothing, where the expression does not match.
    Unless(Box<Peg>),
}

/// The text, letter for letter.
#[verifier::allow_in_spec]
pub fn lit(s: &'static str) -> Peg
    returns
        Peg::Lit(s),
{
    Peg::Lit(s)
}

/// The lower case word in any ASCII case.
#[verifier::allow_in_spec]
pub fn word(s: &'static str) -> Peg
    returns
        Peg::Word(s),
{
    Peg::Word(s)
}

/// One character of a class.
#[verifier::allow_in_spec]
pub fn one(c: Class) -> Peg
    returns
        Peg::One(c),
{
    Peg::One(c)
}

/// A rule of the grammar.
#[verifier::allow_in_spec]
pub fn rule(r: Rule) -> Peg
    returns
        Peg::Rule(r),
{
    Peg::Rule(r)
}

/// The expression or nothing.
#[verifier::allow_in_spec]
pub fn maybe(p: Peg) -> Peg
    returns
        Peg::Maybe(Box::new(p)),
{
    Peg::Maybe(Box::new(p))
}

/// The expression as often as it matches.
#[verifier::allow_in_spec]
pub fn many(p: Peg) -> Peg
    returns
        Peg::Many(Box::new(p)),
{
    Peg::Many(Box::new(p))
}

/// Nothing, where the expression does not match.
#[verifier::allow_in_spec]
pub fn unless(p: Peg) -> Peg
    returns
        Peg::Unless(Box::new(p)),
{
    Peg::Unless(Box::new(p))
}

/// A rule once or more, with commas between.
#[verifier::allow_in_spec]
pub fn list_of(r: Rule) -> Peg
    returns
        rule(r).rep(lit(",").next(rule(r))),
{
    rule(r).rep(lit(",").next(rule(r)))
}

impl Peg {
    /// This, or else the other.
    #[verifier::allow_in_spec]
    pub fn or(self, other: Peg) -> Peg
        returns
            Peg::Either(Box::new(self), Box::new(other)),
    {
        Peg::Either(Box::new(self), Box::new(other))
    }

    /// This and the other close behind it.
    #[verifier::allow_in_spec]
    pub fn close(self, other: Peg) -> Peg
        returns
            Peg::Chain(Box::new(self), Box::new(other)),
    {
        Peg::Chain(Box::new(self), Box::new(other))
    }

    /// This and a gap.
    #[verifier::allow_in_spec]
    pub fn gap(self) -> Peg
        returns
            self.close(Peg::Gap),
    {
        self.close(Peg::Gap)
    }

    /// This, a gap, and the other.
    #[verifier::allow_in_spec]
    pub fn next(self, other: Peg) -> Peg
        returns
            self.close(Peg::Gap.close(other)),
    {
        self.close(Peg::Gap.close(other))
    }

    /// This, and behind a gap the other or nothing.
    #[verifier::allow_in_spec]
    pub fn opt(self, other: Peg) -> Peg
        returns
            self.close(maybe(Peg::Gap.close(other))),
    {
        self.close(maybe(Peg::Gap.close(other)))
    }

    /// This, and the other as often as it matches, each behind a gap.
    #[verifier::allow_in_spec]
    pub fn rep(self, other: Peg) -> Peg
        returns
            self.close(many(Peg::Gap.close(other))),
    {
        self.close(many(Peg::Gap.close(other)))
    }

    /// This, where the other follows behind a gap.
    #[verifier::allow_in_spec]
    pub fn see(self, other: Peg) -> Peg
        returns
            self.close(Peg::Ahead(Box::new(Peg::Gap.close(other)))),
    {
        self.close(Peg::Ahead(Box::new(Peg::Gap.close(other))))
    }
}

/// A node of the parse tree: a rule, the characters it matched, and the rules inside it.
#[derive(Debug)]
pub struct Pair {
    pub rule: Rule,
    pub start: usize,
    pub end: usize,
    pub children: Vec<Pair>,
}

/// What a [`Pair`] says.
pub struct PairView {
    pub rule: Rule,
    pub start: nat,
    pub end: nat,
    pub children: Seq<PairView>,
}

pub open spec fn pair_view(p: Pair) -> PairView
    decreases p,
{
    PairView {
        rule: p.rule,
        start: p.start as nat,
        end: p.end as nat,
        children: pairs_view(p.children@),
    }
}

pub open spec fn pairs_view(s: Seq<Pair>) -> Seq<PairView>
    decreases s,
{
    Seq::new(s.len(), |i: int| if 0 <= i < s.len() { pair_view(s[i]) } else { arbitrary() })
}

impl View for Pair {
    type V = PairView;

    open spec fn view(&self) -> PairView {
        pair_view(*self)
    }
}

/// The node and everything inside it lies within the first `n` characters.
pub open spec fn within(p: PairView, n: nat) -> bool
    decreases p,
{
    p.start <= p.end <= n && all_within(p.children, n)
}

/// All nodes lie within the first `n` characters.
pub open spec fn all_within(ps: Seq<PairView>, n: nat) -> bool
    decreases ps,
{
    forall|i: int| 0 <= i < ps.len() ==> within(#[trigger] ps[i], n)
}

/// The character belongs to the class.
pub open spec fn in_class(c: char, k: Class) -> bool {
    match k {
        Class::Digit => '0' <= c <= '9',
        Class::HexDigit => '0' <= c <= '9' || 'a' <= c <= 'f' || 'A' <= c <= 'F',
        Class::OctalDigit => '0' <= c <= '7',
        Class::NameStart => 'a' <= c <= 'z' || 'A' <= c <= 'Z' || c == '_' || c > '\x7f',
        Class::NameChar => 'a' <= c <= 'z' || 'A' <= c <= 'Z' || c == '_' || c > '\x7f' || '0' <= c <= '9',
        Class::AsciiStart => 'a' <= c <= 'z' || 'A' <= c <= 'Z' || c == '_',
        Class::AsciiChar => 'a' <= c <= 'z' || 'A' <= c <= 'Z' || c == '_' || '0' <= c <= '9',
        Class::Any => true,
        Class::NotBacktick => c != '`',
        Class::NotSingleQuote => c != '\'' && c != '\\',
        Class::NotDoubleQuote => c != '"' && c != '\\',
    }
}

/// Tests whether the character belongs to the class.
pub fn has_class(c: char, k: Class) -> (r: bool)
    ensures
        r == in_class(c, k),
{
    let lower = 'a' <= c && c <= 'z';
    let upper = 'A' <= c && c <= 'Z';
    let digit = '0' <= c && c <= '9';
    match k {
        Class::Digit => digit,
        Class::HexDigit => digit || ('a' <= c && c <= 'f') || ('A' <= c && c <= 'F'),
        Class::OctalDigit => '0' <= c && c <= '7',
        Class::NameStart => lower || upper || c == '_' || c > '\x7f',
        Class::NameChar => lower || upper || c == '_' || c > '\x7f' || digit,
        Class::AsciiStart => lower || upper || c == '_',
        Class::AsciiChar => lower || upper || c == '_' || digit,
        Class::Any => true,
        Class::NotBacktick => c != '`',
        Class::NotSingleQuote => c != '\'' && c != '\\',
        Class::NotDoubleQuote => c != '"' && c != '\\',
    }
}

/// Where the line that holds place `at` ends: at its line feed, or at the end of the text.
pub open spec fn line_end(s: Seq<char>, at: int) -> int
    decreases s.len() - at,
{
    if 0 <= at < s.len() && s[at] != '\n' {
        line_end(s, at + 1)
    } else {
        at
    }
}

/// A line comment begins at `at`.
pub open spec fn comment_at(s: Seq<char>, at: int) -> bool {
    0 <= at && at + 1 < s.len() && s[at] == '/' && s[at + 1] == '/'
}

/// White space.
pub open spec fn blank(c: char) -> bool {
    c == ' ' || c == '\t' || c == '\n' || c == '\r'
}

/// The first place from `at` on that is neither white space nor in a line comment.
pub open spec fn gap_end(s: Seq<char>, at: int) -> int
    decreases s.len() - at,
{
    if 0 <= at < s.len() && blank(s[at]) {
        gap_end(s, at + 1)
    } else if comment_at(s, at) && line_end(s, at) > at && line_end(s, at) <= s.len() {
        gap_end(s, line_end(s, at))
    } else {
        at
    }
}

/// The text stands at `at`, letter for letter.
pub open spec fn literal_at(s: Seq<char>, at: int, t: Seq<char>) -> bool {
    0 <= at && at + t.len() <= s.len() && s.subrange(at, at + t.len()) == t
}

/// The word stands at `at` in any ASCII case, and no name goes on behind it.
pub open spec fn word_at(s: Seq<char>, at: int, w: Seq<char>) -> bool {
    text::stands_at(s, at, w) && (at + w.len() == s.len() || !in_class(
        s[at + w.len()],
        Class::NameChar,
    ))
}

/// The furthest place at which a match failed, and the rule that was being read there.
pub struct FarView {
    pub at: nat,
    pub rule: Rule,
}

/// A failure at `at` in `rule` on top of earlier ones.
pub open spec fn failed(far: FarView, at: nat, rule: Rule) -> FarView {
    if at > far.at {
        FarView { at, rule }
    } else {
        far
    }
}

/// How many rules may begin at one place, each inside the one before. No text needs as many, by
/// [`super::chain_law::no_text_runs_out_of_rules`].
pub const MAX_CHAIN: u32 = 64;

/// Where matching stands: the rule that is being read, where it began, and how many more rules
/// may begin there.
#[derive(Clone, Copy)]
pub struct Frame {
    pub rule: Rule,
    pub start: usize,
    pub chain: u32,
}

/// What a parsing expression does at a place: where it stops and the tree it leaves, or
/// `None` where it fails; and the furthest failure so far.
pub open spec fn matches(e: Peg, s: Seq<char>, at: int, frame: Frame, far: FarView) -> (
    Option<(int, Seq<PairView>)>,
    FarView,
)
    decreases s.len() - frame.start, frame.chain, e, s.len() - at,
{
    let fail = (None::<(int, Seq<PairView>)>, failed(far, at as nat, frame.rule));
    let empty = Seq::<PairView>::empty();
    if !(frame.start <= at <= s.len()) {
        fail
    } else {
        match e {
            Peg::Lit(t) => if literal_at(s, at, t@) {
                (Some((at + t@.len(), empty)), far)
            } else {
                fail
            },
            Peg::Word(w) => if word_at(s, at, w@) {
                (Some((at + w@.len(), empty)), far)
            } else {
                fail
            },
            Peg::One(k) => if at < s.len() && in_class(s[at], k) {
                (Some((at + 1, empty)), far)
            } else {
                fail
            },
            Peg::Gap => (Some((gap_end(s, at), empty)), far),
            Peg::End => if at == s.len() {
                (Some((at, empty)), far)
            } else {
                fail
            },
            Peg::Rule(r) => {
                let inner = if at > frame.start {
                    Frame { rule: r, start: at as usize, chain: MAX_CHAIN }
                } else {
                    Frame { rule: r, start: at as usize, chain: (frame.chain - 1) as u32 }
                };
                if (at <= frame.start && frame.chain == 0) || at > usize::MAX {
                    fail
                } else {
                    match matches(grammar::body_of(r), s, at, inner, far) {
                        (Some((end, kids)), f) => (
                            Some(
                                (
                                    end,
                                    seq![
                                        PairView {
                                            rule: r,
                                            start: at as nat,
                                            end: end as nat,
                                            children: kids,
                                        },
                                    ],
                                ),
                            ),
                            f,
                        ),
                        (None, f) => (None, f),
                    }
                }
            },
            Peg::Chain(a, b) => match matches(*a, s, at, frame, far) {
                (Some((mid, xs)), f) => match matches(*b, s, mid, frame, f) {
                    (Some((end, ys)), g) => (Some((end, xs + ys)), g),
                    (None, g) => (None, g),
                },
                (None, f) => (None, f),
            },
            Peg::Either(a, b) => match matches(*a, s, at, frame, far) {
                (Some(x), f) => (Some(x), f),
                (None, f) => matches(*b, s, at, frame, f),
            },
            Peg::Maybe(a) => match matches(*a, s, at, frame, far) {
                (Some(x), f) => (Some(x), f),
                (None, f) => (Some((at, empty)), f),
            },
            Peg::Many(a) => match matches(*a, s, at, frame, far) {
                (Some((mid, xs)), f) => if at < mid <= s.len() {
                    match matches(e, s, mid, frame, f) {
                        (Some((end, ys)), g) => (Some((end, xs + ys)), g),
                        (None, g) => (None, g),
                    }
                } else {
                    (Some((at, empty)), f)
                },
                (None, f) => (Some((at, empty)), f),
            },
            Peg::Ahead(a) => match matches(*a, s, at, frame, far) {
                (Some(_), f) => (Some((at, empty)), f),
                (None, f) => (None, f),
            },
            Peg::Unless(a) => match matches(*a, s, at, frame, far) {
                (Some(_), _) => fail,
                (None, _) => (Some((at, empty)), far),
            },
        }
    }
}

/// The furthest place at which a match failed, and the rule that was being read there.
#[derive(Clone, Copy)]
pub struct Far {
    pub at: usize,
    pub rule: Rule,
}

impl View for Far {
    type V = FarView;

    open spec fn view(&self) -> FarView {
        FarView { at: self.at as nat, rule: self.rule }
    }
}

impl Far {
    /// Notes a failure at `at` in `rule`.
    pub fn note(&mut self, at: usize, rule: Rule)
        ensures
            final(self)@ == failed(old(self)@, at as nat, rule),
    {
        if at > self.at {
            self.at = at;
            self.rule = rule;
        }
    }
}

/// Where the line that holds place `at` ends.
fn find_line_end(s: &Vec<char>, at: usize) -> (r: usize)
    requires
        at <= s.len(),
    ensures
        r == line_end(s@, at as int),
        at <= r <= s.len(),
{
    let mut i: usize = at;
    while i < s.len() && s[i] != '\n'
        invariant
            at <= i <= s.len(),
            line_end(s@, at as int) == line_end(s@, i as int),
        decreases s.len() - i,
    {
        i = i + 1;
    }
    i
}

/// The first place from `at` on that is neither white space nor in a line comment.
fn find_gap_end(s: &Vec<char>, at: usize) -> (r: usize)
    requires
        at <= s.len(),
    ensures
        r == gap_end(s@, at as int),
        at <= r <= s.len(),
{
    let mut i: usize = at;
    loop
        invariant
            at <= i <= s.len(),
            gap_end(s@, at as int) == gap_end(s@, i as int),
        decreases s.len() - i,
    {
        if i < s.len() && (s[i] == ' ' || s[i] == '\t' || s[i] == '\n' || s[i] == '\r') {
            i = i + 1;
        } else if i < s.len() && s.len() - i > 1 && s[i] == '/' && s[i + 1] == '/' {
            let j = find_line_end(s, i);
            assert(line_end(s@, i as int) == line_end(s@, i + 1));
            assert(line_end(s@, i + 1) >= i + 1) by {
                lemma_line_end_bounds(s@, i + 1);
            }
            i = j;
        } else {
            return i;
        }
    }
}

/// The end of a line lies behind every place on it, and within the text.
proof fn lemma_line_end_bounds(s: Seq<char>, at: int)
    requires
        0 <= at <= s.len(),
    ensures
        at <= line_end(s, at) <= s.len(),
    decreases s.len() - at,
{
    if at < s.len() && s[at] != '\n' {
        lemma_line_end_bounds(s, at + 1);
    }
}

/// Looks for the text at `at`; gives the place behind it.
fn read_literal(s: &Vec<char>, at: usize, t: &str) -> (r: Option<usize>)
    requires
        at <= s.len(),
    ensures
        r == (if literal_at(s@, at as int, t@) {
            Some((at + t@.len()) as usize)
        } else {
            None
        }),
        r matches Some(end) ==> at <= end <= s.len() && end == at + t@.len(),
{
    let mut i: usize = at;
    for c in it: t.chars()
        invariant
            it.seq() == t@,
            at <= i <= s.len(),
            i == at + it.index(),
            s@.subrange(at as int, i as int) == t@.take(it.index() as int),
    {
        if i >= s.len() || s[i] != c {
            proof {
                if literal_at(s@, at as int, t@) {
                    let k = it.index() as int;
                    assert(s@.subrange(at as int, at + t@.len())[k] == t@[k]);
                }
            }
            return None;
        }
        i = i + 1;
    }
    assert(t@.take(t@.len() as int) == t@);
    Some(i)
}

/// Looks for the word at `at`; gives the place behind it.
fn read_word(s: &Vec<char>, at: usize, w: &str) -> (r: Option<usize>)
    requires
        at <= s.len(),
    ensures
        r == (if word_at(s@, at as int, w@) {
            Some((at + w@.len()) as usize)
        } else {
            None
        }),
        r matches Some(end) ==> at <= end <= s.len() && end == at + w@.len(),
{
    let mut i: usize = at;
    for c in it: w.chars()
        invariant
            it.seq() == w@,
            at <= i <= s.len(),
            i == at + it.index(),
            text::lower_text(s@.subrange(at as int, i as int)) == w@.take(it.index() as int),
    {
        if i >= s.len() || text::lower_char(s[i]) != c {
            proof {
                if text::stands_at(s@, at as int, w@) {
                    let k = it.index() as int;
                    assert(text::lower_text(s@.subrange(at as int, at + w@.len()))[k] == w@[k]);
                }
            }
            return None;
        }
        i = i + 1;
    }
    assert(w@.take(w@.len() as int) == w@);
    if i < s.len() && has_class(s[i], Class::NameChar) {
        None
    } else {
        Some(i)
    }
}

/// The outcome with trees put in front of its own.
pub open spec fn prefixed(xs: Seq<PairView>, m: (Option<(int, Seq<PairView>)>, FarView)) -> (
    Option<(int, Seq<PairView>)>,
    FarView,
) {
    match m {
        (Some((end, ys)), f) => (Some((end, xs + ys)), f),
        (None, f) => (None, f),
    }
}

/// The result of the matcher is the outcome that the expression calls for.
pub open spec fn agrees(
    r: Option<(usize, Vec<Pair>)>,
    m: Option<(int, Seq<PairView>)>,
    at: int,
    n: nat,
) -> bool {
    match (r, m) {
        (Some((end, ps)), Some((end2, qs))) => {
            &&& end == end2
            &&& at <= end <= n
            &&& pairs_view(ps@) == qs
            &&& all_within(qs, n)
        },
        (None, None) => true,
        _ => false,
    }
}

/// Matches a parsing expression.
pub fn run(e: &Peg, s: &Vec<char>, at: usize, frame: Frame, far: &mut Far) -> (r: Option<
    (usize, Vec<Pair>),
>)
    requires
        frame.start <= at <= s.len(),
    ensures
        agrees(
            r,
            matches(*e, s@, at as int, frame, old(far)@).0,
            at as int,
            s@.len(),
        ),
        final(far)@ == matches(*e, s@, at as int, frame, old(far)@).1,
        old(far).at <= s@.len() ==> final(far).at <= s@.len(),
    decreases s.len() - frame.start, frame.chain, e, s.len() - at, 1int,
{
    match e {
        Peg::Lit(t) => match read_literal(s, at, t) {
            Some(end) => finish(end),
            None => {
                far.note(at, frame.rule);
                None
            },
        },
        Peg::Word(w) => match read_word(s, at, w) {
            Some(end) => finish(end),
            None => {
                far.note(at, frame.rule);
                None
            },
        },
        Peg::One(k) => if at < s.len() && has_class(s[at], *k) {
            finish(at + 1)
        } else {
            far.note(at, frame.rule);
            None
        },
        Peg::Gap => finish(find_gap_end(s, at)),
        Peg::End => if at == s.len() {
            finish(at)
        } else {
            far.note(at, frame.rule);
            None
        },
        Peg::Rule(r) => run_rule(*r, s, at, frame, far),
        Peg::Chain(a, b) => match run(a, s, at, frame, far) {
            Some((mid, mut xs)) => match run(b, s, mid, frame, far) {
                Some((end, mut ys)) => {
                    let ghost x = xs@;
                    let ghost y = ys@;
                    xs.append(&mut ys);
                    proof {
                        lemma_pairs_view_append(x, y);
                        lemma_all_within_append(pairs_view(x), pairs_view(y), s@.len());
                    }
                    Some((end, xs))
                },
                None => None,
            },
            None => None,
        },
        Peg::Either(a, b) => match run(a, s, at, frame, far) {
            Some(x) => Some(x),
            None => run(b, s, at, frame, far),
        },
        Peg::Maybe(a) => match run(a, s, at, frame, far) {
            Some(x) => Some(x),
            None => finish(at),
        },
        Peg::Many(a) => run_many(e, a, s, at, frame, far),
        Peg::Ahead(a) => match run(a, s, at, frame, far) {
            Some(_) => finish(at),
            None => None,
        },
        Peg::Unless(a) => {
            let mut aside = Far { at: far.at, rule: far.rule };
            match run(a, s, at, frame, &mut aside) {
                Some(_) => {
                    far.note(at, frame.rule);
                    None
                },
                None => finish(at),
            }
        },
    }
}

/// A match that leaves no tree.
fn finish(end: usize) -> (r: Option<(usize, Vec<Pair>)>)
    ensures
        r matches Some((e, ps)) && e == end && pairs_view(ps@) == Seq::<PairView>::empty(),
{
    let ps: Vec<Pair> = Vec::new();
    assert(pairs_view(ps@) =~= Seq::<PairView>::empty());
    Some((end, ps))
}

/// Matches a rule of the grammar.
fn run_rule(rule: Rule, s: &Vec<char>, at: usize, frame: Frame, far: &mut Far) -> (r: Option<
    (usize, Vec<Pair>),
>)
    requires
        frame.start <= at <= s.len(),
    ensures
        agrees(
            r,
            matches(Peg::Rule(rule), s@, at as int, frame, old(far)@).0,
            at as int,
            s@.len(),
        ),
        final(far)@ == matches(Peg::Rule(rule), s@, at as int, frame, old(far)@).1,
        old(far).at <= s@.len() ==> final(far).at <= s@.len(),
    decreases s.len() - frame.start, frame.chain, Peg::Rule(rule), s.len() - at, 0int,
{
    let inner = if at > frame.start {
        Frame { rule, start: at, chain: MAX_CHAIN }
    } else if frame.chain > 0 {
        Frame { rule, start: at, chain: frame.chain - 1 }
    } else {
        far.note(at, frame.rule);
        return None;
    };
    let body = grammar::rule_body(rule);
    match run(&body, s, at, inner, far) {
        Some((end, children)) => {
            let ghost kids = pairs_view(children@);
            let pair = Pair { rule, start: at, end, children };
            let mut out: Vec<Pair> = Vec::new();
            out.push(pair);
            proof {
                let v = pair_view(out@[0]);
                assert(pairs_view(out@) =~= seq![v]);
                assert(v.children == kids);
                assert(within(v, s@.len()));
            }
            Some((end, out))
        },
        None => None,
    }
}

/// Matches an expression as often as it goes.
fn run_many(e: &Peg, a: &Peg, s: &Vec<char>, at: usize, frame: Frame, far: &mut Far) -> (r:
    Option<(usize, Vec<Pair>)>)
    requires
        *e == Peg::Many(Box::new(*a)),
        frame.start <= at <= s.len(),
    ensures
        agrees(
            r,
            matches(*e, s@, at as int, frame, old(far)@).0,
            at as int,
            s@.len(),
        ),
        final(far)@ == matches(*e, s@, at as int, frame, old(far)@).1,
        old(far).at <= s@.len() ==> final(far).at <= s@.len(),
    decreases s.len() - frame.start, frame.chain, a, s.len() - at + 1, 0int,
{
    let ghost far0 = far@;
    let mut out: Vec<Pair> = Vec::new();
    let mut cur: usize = at;
    proof {
        lemma_prefixed_by_nothing(matches(*e, s@, at as int, frame, far0));
        assert(pairs_view(out@) =~= Seq::<PairView>::empty());
    }
    loop
        invariant
            *e == Peg::Many(Box::new(*a)),
            frame.start <= at <= cur <= s.len(),
            far0 == old(far)@,
            old(far).at <= s@.len() ==> far.at <= s@.len(),
            matches(*e, s@, at as int, frame, far0) == prefixed(
                pairs_view(out@),
                matches(*e, s@, cur as int, frame, far@),
            ),
            all_within(pairs_view(out@), s@.len()),
        decreases s.len() - cur,
    {
        let ghost far1 = far@;
        let ghost xs = pairs_view(out@);
        match run(a, s, cur, frame, far) {
            Some((mid, mut ps)) => {
                if mid > cur {
                    let ghost before = out@;
                    let ghost added = ps@;
                    out.append(&mut ps);
                    proof {
                        lemma_pairs_view_append(before, added);
                        lemma_all_within_append(pairs_view(before), pairs_view(added), s@.len());
                        let rest = matches(*e, s@, mid as int, frame, far@);
                        if let (Some((end, ys)), _) = rest {
                            assert(xs + (pairs_view(added) + ys) =~= (xs + pairs_view(added)) + ys);
                        }
                    }
                    cur = mid;
                } else {
                    assert(xs + Seq::<PairView>::empty() =~= xs);
                    return Some((cur, out));
                }
            },
            None => {
                assert(xs + Seq::<PairView>::empty() =~= xs);
                return Some((cur, out));
            },
        }
    }
}

/// Nothing put in front of an outcome leaves it as it is.
proof fn lemma_prefixed_by_nothing(m: (Option<(int, Seq<PairView>)>, FarView))
    ensures
        prefixed(Seq::empty(), m) == m,
{
    if let (Some((end, ys)), _) = m {
        assert(Seq::<PairView>::empty() + ys =~= ys);
    }
}

/// The view of a concatenation is the concatenation of the views.
pub proof fn lemma_pairs_view_append(x: Seq<Pair>, y: Seq<Pair>)
    ensures
        pairs_view(x + y) == pairs_view(x) + pairs_view(y),
{
    assert(pairs_view(x + y) =~= pairs_view(x) + pairs_view(y));
}

/// Trees put together stay within the text.
proof fn lemma_all_within_append(x: Seq<PairView>, y: Seq<PairView>, n: nat)
    requires
        all_within(x, n),
        all_within(y, n),
    ensures
        all_within(x + y, n),
{
    assert forall|i: int| 0 <= i < (x + y).len() implies within(#[trigger] (x + y)[i], n) by {
        if i < x.len() {
            assert(within(x[i], n));
        } else {
            assert(within(y[i - x.len()], n));
        }
    }
}

} // verus!
