//! Status-line format templates.
//!
//! A format string is literal text interspersed with `{KEY}` placeholders.
//! Two keys are recognized: `ROW` and `COL`, which render the 1-based cursor
//! row and column; any other `{...}` segment is dropped from the output.
//! Compilation never fails: a string without placeholders becomes a single
//! literal step.

use vstd::prelude::*;
use vstd::string::StrSliceExecFns;
use vstd::string::StringExecFns;

verus! {

/// The substitution a pipeline step performs after emitting its literal
/// prefix: nothing, the 1-based cursor row, or the 1-based cursor column.
#[derive(Clone, Copy, PartialEq, Eq, Structural, Debug)]
pub enum SubKind {
    Plain,
    Row,
    Column,
}

/// The decimal digit character for `d` (`d < 10`).
pub open spec fn spec_digit(d: nat) -> char {
    if d == 0 {
        '0'
    } else if d == 1 {
        '1'
    } else if d == 2 {
        '2'
    } else if d == 3 {
        '3'
    } else if d == 4 {
        '4'
    } else if d == 5 {
        '5'
    } else if d == 6 {
        '6'
    } else if d == 7 {
        '7'
    } else if d == 8 {
        '8'
    } else {
        '9'
    }
}

/// The decimal representation of `n`, most significant digit first.
pub open spec fn spec_digits(n: nat) -> Seq<char>
    decreases n,
{
    if n < 10 {
        seq![spec_digit(n)]
    } else {
        spec_digits(n / 10).push(spec_digit(n % 10))
    }
}

fn digit_str(d: u128) -> (s: &'static str)
    requires
        d < 10,
    ensures
        s@ == seq![spec_digit(d as nat)],
{
    proof {
        reveal_strlit("0");
        reveal_strlit("1");
        reveal_strlit("2");
        reveal_strlit("3");
        reveal_strlit("4");
        reveal_strlit("5");
        reveal_strlit("6");
        reveal_strlit("7");
        reveal_strlit("8");
        reveal_strlit("9");
    }
    let s: &'static str = if d == 0 {
        "0"
    } else if d == 1 {
        "1"
    } else if d == 2 {
        "2"
    } else if d == 3 {
        "3"
    } else if d == 4 {
        "4"
    } else if d == 5 {
        "5"
    } else if d == 6 {
        "6"
    } else if d == 7 {
        "7"
    } else if d == 8 {
        "8"
    } else {
        "9"
    };
    proof {
        assert(s@ =~= seq![spec_digit(d as nat)]);
    }
    s
}

/// Renders `n` in decimal.
fn fmt_u128(n: u128) -> (s: String)
    ensures
        s@ == spec_digits(n as nat),
    decreases n,
{
    if n < 10 {
        let s = digit_str(n).to_owned();
        proof {
            assert(s@ =~= spec_digits(n as nat));
        }
        s
    } else {
        let mut s = fmt_u128(n / 10);
        s.append(digit_str(n % 10));
        proof {
            assert(s@ =~= spec_digits(n as nat));
        }
        s
    }
}

/// Index of the first occurrence of `c` in `s` at or after position `from`,
/// or `s.len()` if there is none.
pub open spec fn spec_find_from(s: Seq<char>, c: char, from: int) -> int
    decreases s.len() - from,
{
    if from < 0 || from >= s.len() {
        s.len() as int
    } else if s[from] == c {
        from
    } else {
        spec_find_from(s, c, from + 1)
    }
}

/// `spec_find_from` lands between `from` and `s.len()`, lands on `c` when it
/// finds one, and skips no occurrence of `c`.
pub proof fn lemma_find_from(s: Seq<char>, c: char, from: int)
    requires
        0 <= from <= s.len(),
    ensures
        from <= spec_find_from(s, c, from) <= s.len(),
        spec_find_from(s, c, from) < s.len() ==> s[spec_find_from(s, c, from)] == c,
        forall|k: int| from <= k < spec_find_from(s, c, from) ==> s[k] != c,
    decreases s.len() - from,
{
    if from < s.len() && s[from] != c {
        lemma_find_from(s, c, from + 1);
    }
}

/// A position that is `c` (or the end), with no `c` before it, is exactly
/// where `spec_find_from` lands.
pub proof fn lemma_find_from_unique(s: Seq<char>, c: char, from: int, r: int)
    requires
        0 <= from <= r <= s.len(),
        r < s.len() ==> s[r] == c,
        forall|k: int| from <= k < r ==> s[k] != c,
    ensures
        spec_find_from(s, c, from) == r,
{
    lemma_find_from(s, c, from);
    let f = spec_find_from(s, c, from);
    if f < r {
        assert(s[f] != c);
    } else if r < f {
        assert(s[r] != c);
    }
}

/// Scans `s` for `c`, starting at character position `from`.
fn find_from(s: &str, c: char, from: usize) -> (r: usize)
    requires
        from <= s@.len(),
    ensures
        r == spec_find_from(s@, c, from as int),
{
    let n = s.unicode_len();
    let mut i = from;
    while i < n
        invariant
            from <= i <= n,
            n == s@.len(),
            forall|k: int| from <= k < i ==> s@[k] != c,
        decreases n - i,
    {
        if s.get_char(i) == c {
            proof {
                lemma_find_from_unique(s@, c, from as int, i as int);
            }
            return i;
        }
        i += 1;
    }
    proof {
        lemma_find_from_unique(s@, c, from as int, n as int);
    }
    n
}

/// The mathematical model of one pipeline step: emit `prefix` verbatim, then
/// whatever text the substitution `kind` calls for.
pub ghost struct StepModel {
    pub prefix: Seq<char>,
    pub kind: SubKind,
}

/// The substitution selected by the text found between braces: exactly `ROW`
/// and `COL` are recognized; any other inner text (including none) is dropped.
pub open spec fn spec_kind(inner: Seq<char>) -> SubKind {
    if inner == seq!['R', 'O', 'W'] {
        SubKind::Row
    } else if inner == seq!['C', 'O', 'L'] {
        SubKind::Column
    } else {
        SubKind::Plain
    }
}

/// The pipeline compiled from the part of `s` at and after position `from`:
/// one step per `{...}` placeholder, whose prefix is the literal text between
/// the previous placeholder and this one, and one final literal step for the
/// trailing text if that is nonempty.
///
/// A placeholder starts at the first `{` and ends at the first `}` after it;
/// its inner text therefore never contains a `}`. If no further placeholder
/// exists, everything left (braces included) is literal.
pub open spec fn spec_steps_from(s: Seq<char>, from: int) -> Seq<StepModel>
    decreases s.len() - from,
{
    let i = spec_find_from(s, '{', from);
    let j = spec_find_from(s, '}', i + 1);
    if from <= i && i < s.len() && i < j && j < s.len() {
        seq![StepModel { prefix: s.subrange(from, i), kind: spec_kind(s.subrange(i + 1, j)) }]
            + spec_steps_from(s, j + 1)
    } else if from < s.len() {
        seq![StepModel { prefix: s.subrange(from, s.len() as int), kind: SubKind::Plain }]
    } else {
        seq![]
    }
}

/// The full pipeline for format string `s`. There is always at least one
/// step: a string without placeholders (even the empty string) compiles to a
/// single literal step holding the whole input.
pub open spec fn spec_compile(s: Seq<char>) -> Seq<StepModel> {
    if s.len() == 0 {
        seq![StepModel { prefix: s, kind: SubKind::Plain }]
    } else {
        spec_steps_from(s, 0)
    }
}

/// One executable pipeline step.
pub struct Step {
    pub prefix: String,
    pub kind: SubKind,
}

impl View for Step {
    type V = StepModel;

    open spec fn view(&self) -> StepModel {
        StepModel { prefix: self.prefix@, kind: self.kind }
    }
}

/// The models of a sequence of executable steps.
pub open spec fn views_of(steps: Seq<Step>) -> Seq<StepModel> {
    steps.map_values(|s: Step| s@)
}

/// Decides the substitution for the text found between braces.
fn parse_kind(inner: &str) -> (k: SubKind)
    ensures
        k == spec_kind(inner@),
{
    let n = inner.unicode_len();
    if n == 3 {
        let c0 = inner.get_char(0);
        let c1 = inner.get_char(1);
        let c2 = inner.get_char(2);
        if c0 == 'R' && c1 == 'O' && c2 == 'W' {
            proof {
                assert(inner@ =~= seq!['R', 'O', 'W']);
            }
            return SubKind::Row;
        }
        if c0 == 'C' && c1 == 'O' && c2 == 'L' {
            proof {
                assert(inner@ =~= seq!['C', 'O', 'L']);
            }
            return SubKind::Column;
        }
        return SubKind::Plain;
    }
    SubKind::Plain
}

/// Compiles a format string into its step pipeline. Never fails: malformed or
/// unknown placeholders degrade to literal text or dropped segments.
fn make_steps(fmt_str: &str) -> (steps: Vec<Step>)
    ensures
        views_of(steps@) == spec_compile(fmt_str@),
{
    let n = fmt_str.unicode_len();
    let mut steps: Vec<Step> = Vec::new();
    if n == 0 {
        steps.push(Step { prefix: fmt_str.to_owned(), kind: SubKind::Plain });
        proof {
            assert(views_of(steps@) =~= spec_compile(fmt_str@));
        }
        return steps;
    }
    let mut pos: usize = 0;
    loop
        invariant
            pos <= n,
            n == fmt_str@.len(),
            spec_compile(fmt_str@) == views_of(steps@) + spec_steps_from(
                fmt_str@,
                pos as int,
            ),
        decreases n - pos,
    {
        proof {
            lemma_find_from(fmt_str@, '{', pos as int);
        }
        let i = find_from(fmt_str, '{', pos);
        let j = if i < n {
            proof {
                lemma_find_from(fmt_str@, '}', i + 1 as int);
            }
            find_from(fmt_str, '}', i + 1)
        } else {
            n
        };
        if i < n && j < n {
            let prefix = fmt_str.substring_char(pos, i).to_owned();
            let inner = fmt_str.substring_char(i + 1, j);
            let kind = parse_kind(inner);
            let ghost old_steps = steps@;
            steps.push(Step { prefix, kind });
            proof {
                let s = fmt_str@;
                let m = StepModel {
                    prefix: s.subrange(pos as int, i as int),
                    kind: spec_kind(s.subrange(i + 1 as int, j as int)),
                };
                assert(views_of(steps@) =~= views_of(old_steps) + seq![m]);
                assert(spec_steps_from(s, pos as int) == seq![m] + spec_steps_from(
                    s,
                    j + 1 as int,
                ));
                assert(views_of(old_steps) + (seq![m] + spec_steps_from(s, j + 1 as int)) =~= (
                views_of(old_steps) + seq![m]) + spec_steps_from(s, j + 1 as int));
            }
            pos = j + 1;
        } else {
            if pos < n {
                let rest = fmt_str.substring_char(pos, n).to_owned();
                let ghost old_steps = steps@;
                steps.push(Step { prefix: rest, kind: SubKind::Plain });
                proof {
                    let s = fmt_str@;
                    let m = StepModel {
                        prefix: s.subrange(pos as int, s.len() as int),
                        kind: SubKind::Plain,
                    };
                    assert(views_of(steps@) =~= views_of(old_steps) + seq![m]);
                    assert(spec_steps_from(s, pos as int) == seq![m]);
                }
            } else {
                proof {
                    assert(spec_steps_from(fmt_str@, pos as int) =~= Seq::<StepModel>::empty());
                    assert(views_of(steps@) + Seq::<StepModel>::empty() =~= views_of(steps@));
                }
            }
            return steps;
        }
    }
}

/// The text a substitution produces at a 0-based cursor position: rows and
/// columns display 1-based.
pub open spec fn spec_sub_text(k: SubKind, row: nat, col: nat) -> Seq<char> {
    match k {
        SubKind::Plain => Seq::empty(),
        SubKind::Row => spec_digits(row + 1),
        SubKind::Column => spec_digits(col + 1),
    }
}

/// The text one step produces: its literal prefix, then its substitution.
pub open spec fn spec_render_step(m: StepModel, row: nat, col: nat) -> Seq<char> {
    m.prefix + spec_sub_text(m.kind, row, col)
}

/// The text a pipeline produces: each step's text, in order.
pub open spec fn spec_render(ms: Seq<StepModel>, row: nat, col: nat) -> Seq<char>
    decreases ms.len(),
{
    if ms.len() == 0 {
        Seq::empty()
    } else {
        spec_render_step(ms[0], row, col) + spec_render(ms.drop_first(), row, col)
    }
}

/// Appending a step to a pipeline appends its text to the rendering.
pub proof fn lemma_render_push(ms: Seq<StepModel>, m: StepModel, row: nat, col: nat)
    ensures
        spec_render(ms.push(m), row, col) == spec_render(ms, row, col) + spec_render_step(
            m,
            row,
            col,
        ),
    decreases ms.len(),
{
    let whole = ms.push(m);
    if ms.len() == 0 {
        assert(whole[0] == m);
        assert(whole.drop_first() =~= Seq::<StepModel>::empty());
        assert(spec_render(Seq::<StepModel>::empty(), row, col) =~= Seq::<char>::empty());
        assert(spec_render(whole, row, col) =~= spec_render(ms, row, col) + spec_render_step(
            m,
            row,
            col,
        ));
    } else {
        assert(whole[0] == ms[0]);
        assert(whole.drop_first() =~= ms.drop_first().push(m));
        lemma_render_push(ms.drop_first(), m, row, col);
        assert((spec_render_step(ms[0], row, col) + spec_render(ms.drop_first(), row, col))
            + spec_render_step(m, row, col) =~= spec_render_step(ms[0], row, col) + (spec_render(
            ms.drop_first(),
            row,
            col,
        ) + spec_render_step(m, row, col)));
        assert(spec_render(whole, row, col) =~= spec_render(ms, row, col) + spec_render_step(
            m,
            row,
            col,
        ));
    }
}

/// Renders a pipeline at the given 0-based cursor position.
fn render_steps(steps: &Vec<Step>, row: usize, col: usize) -> (out: String)
    ensures
        out@ == spec_render(views_of(steps@), row as nat, col as nat),
{
    let mut out = String::new();
    let mut idx: usize = 0;
    while idx < steps.len()
        invariant
            idx <= steps.len(),
            out@ == spec_render(views_of(steps@.take(idx as int)), row as nat, col as nat),
        decreases steps.len() - idx,
    {
        let step = &steps[idx];
        out.append(step.prefix.as_str());
        match step.kind {
            SubKind::Plain => {},
            SubKind::Row => {
                let v = fmt_u128(row as u128 + 1);
                out.append(v.as_str());
            },
            SubKind::Column => {
                let v = fmt_u128(col as u128 + 1);
                out.append(v.as_str());
            },
        }
        proof {
            let ms = views_of(steps@.take(idx as int));
            lemma_render_push(ms, steps@[idx as int]@, row as nat, col as nat);
            assert(views_of(steps@.take(idx as int + 1)) =~= ms.push(steps@[idx as int]@));
            assert(out@ =~= spec_render(
                views_of(steps@.take(idx as int + 1)),
                row as nat,
                col as nat,
            ));
        }
        idx += 1;
    }
    proof {
        assert(steps@.take(steps@.len() as int) =~= steps@);
    }
    out
}

/// Direct template substitution on the part of `s` at and after position
/// `from`: `{ROW}` and `{COL}` become the 1-based cursor row and column, any
/// other placeholder vanishes, and everything else is kept verbatim.
pub open spec fn spec_subst_from(s: Seq<char>, from: int, row: nat, col: nat) -> Seq<char>
    decreases s.len() - from,
{
    let i = spec_find_from(s, '{', from);
    let j = spec_find_from(s, '}', i + 1);
    if from <= i && i < s.len() && i < j && j < s.len() {
        s.subrange(from, i) + spec_sub_text(spec_kind(s.subrange(i + 1, j)), row, col)
            + spec_subst_from(s, j + 1, row, col)
    } else if from < s.len() {
        s.subrange(from, s.len() as int)
    } else {
        Seq::empty()
    }
}

/// Direct template substitution over the whole of `s`.
pub open spec fn spec_subst(s: Seq<char>, row: nat, col: nat) -> Seq<char> {
    spec_subst_from(s, 0, row, col)
}

proof fn lemma_steps_from_render(s: Seq<char>, from: int, row: nat, col: nat)
    requires
        0 <= from <= s.len(),
    ensures
        spec_render(spec_steps_from(s, from), row, col) == spec_subst_from(s, from, row, col),
    decreases s.len() - from,
{
    let i = spec_find_from(s, '{', from);
    let j = spec_find_from(s, '}', i + 1);
    if from <= i && i < s.len() && i < j && j < s.len() {
        lemma_steps_from_render(s, j + 1, row, col);
        let m = (StepModel { prefix: s.subrange(from, i), kind: spec_kind(s.subrange(i + 1, j)) });
        let rest = spec_steps_from(s, j + 1);
        assert((seq![m] + rest)[0] == m);
        assert((seq![m] + rest).drop_first() =~= rest);
        assert(spec_render(seq![m] + rest, row, col) == spec_render_step(m, row, col)
            + spec_render(rest, row, col));
        assert(spec_render_step(m, row, col) + spec_render(rest, row, col) =~= spec_subst_from(
            s,
            from,
            row,
            col,
        ));
    } else if from < s.len() {
        let m = (StepModel { prefix: s.subrange(from, s.len() as int), kind: SubKind::Plain });
        assert(seq![m][0] == m);
        assert(seq![m].drop_first() =~= Seq::<StepModel>::empty());
        assert(spec_render(Seq::<StepModel>::empty(), row, col) == Seq::<char>::empty());
        assert(spec_render(seq![m], row, col) =~= s.subrange(from, s.len() as int));
    } else {
        assert(spec_steps_from(s, from) =~= Seq::<StepModel>::empty());
    }
}

/// Law: rendering the compiled pipeline of a format string yields exactly the
/// direct substitution on that string — left-to-right order is kept, each
/// `{ROW}` / `{COL}` becomes the 1-based row or column, any other placeholder
/// is dropped, and all other characters survive verbatim.
pub proof fn lemma_render_is_subst(s: Seq<char>, row: nat, col: nat)
    ensures
        spec_render(spec_compile(s), row, col) == spec_subst(s, row, col),
{
    if s.len() == 0 {
        let m = (StepModel { prefix: s, kind: SubKind::Plain });
        assert(seq![m][0] == m);
        assert(seq![m].drop_first() =~= Seq::<StepModel>::empty());
        assert(spec_render(Seq::<StepModel>::empty(), row, col) == Seq::<char>::empty());
        assert(spec_render(seq![m], row, col) =~= Seq::<char>::empty());
    } else {
        lemma_steps_from_render(s, 0, row, col);
    }
}

/// Law: a format string without `{` or `}` characters renders as itself,
/// whatever the cursor position.
pub proof fn lemma_literal_passthrough(s: Seq<char>, row: nat, col: nat)
    requires
        forall|k: int| 0 <= k < s.len() ==> s[k] != '{' && s[k] != '}',
    ensures
        spec_render(spec_compile(s), row, col) == s,
{
    lemma_render_is_subst(s, row, col);
    if s.len() > 0 {
        lemma_find_from(s, '{', 0);
        let i = spec_find_from(s, '{', 0);
        assert(i == s.len());
        assert(s.subrange(0, s.len() as int) =~= s);
    }
}

/// Law: every compiled pipeline has at least one step.
pub proof fn lemma_compile_nonempty(s: Seq<char>)
    ensures
        spec_compile(s).len() >= 1,
{
}

/// Law: compiling the same format string twice yields pipelines that render
/// identically at every cursor position.
pub proof fn lemma_compile_idempotent(
    s: Seq<char>,
    m1: Seq<StepModel>,
    m2: Seq<StepModel>,
    row: nat,
    col: nat,
)
    requires
        m1 == spec_compile(s),
        m2 == spec_compile(s),
    ensures
        spec_render(m1, row, col) == spec_render(m2, row, col),
{
}

/// Declares tuirealm's `Style` to the verifier as an opaque type: templates
/// carry a style value through untouched, so nothing of its contents is
/// assumed.
#[verifier::external_type_specification]
#[verifier::external_body]
pub struct ExStyle(tuirealm::props::Style);

/// Relies on `Copy` for tuirealm's `Style`: a copy is the same value.
#[verifier::external_body]
fn copy_style(s: &tuirealm::props::Style) -> (r: tuirealm::props::Style)
    ensures
        r == *s,
{
    *s
}

/// A compiled status/footer line format: an ordered step pipeline plus the
/// display style the whole line is drawn with.
///
/// Immutable after construction: the same instance can be rendered any number
/// of times, each rendering reading only the cursor position handed to it.
pub struct LineFmt {
    call_chain: Vec<Step>,
    style: tuirealm::props::Style,
}

impl LineFmt {
    /// The model of the compiled step pipeline.
    pub closed spec fn steps_model(&self) -> Seq<StepModel> {
        views_of(self.call_chain@)
    }

    /// The style captured at compile time.
    pub closed spec fn style_spec(&self) -> tuirealm::props::Style {
        self.style
    }

    /// Compiles a format string, associating `style` with the whole line.
    /// Total: any input compiles, malformed placeholders degrading to
    /// literal text.
    pub fn new(fmt_str: &str, style: tuirealm::props::Style) -> (r: LineFmt)
        ensures
            r.steps_model() == spec_compile(fmt_str@),
            r.style_spec() == style,
    {
        LineFmt { call_chain: make_steps(fmt_str), style }
    }

    /// Renders the line at the given 0-based cursor position (the display is
    /// 1-based). Reads the position anew on every call: nothing is cached.
    pub fn fmt(&self, row: usize, col: usize) -> (out: String)
        ensures
            out@ == spec_render(self.steps_model(), row as nat, col as nat),
    {
        render_steps(&self.call_chain, row, col)
    }

    /// The style captured at compile time, unchanged.
    pub fn style(&self) -> (s: tuirealm::props::Style)
        ensures
            s == self.style_spec(),
    {
        copy_style(&self.style)
    }
}

} // verus!
