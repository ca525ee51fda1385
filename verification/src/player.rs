use vstd::prelude::*;

use crate::cipher::{str_to_chars, CipherOperation, DecipherProgram};
use crate::error::ExtractionError;

verus! {

// ---------------------------------------------------------------------------
// The structural pattern.
//
// A player source hides its signature transform in a routine of the shape
//
//     a=a.split("");OBJ.H1(a,N1);OBJ.H2(a,N2);...;return a.join("")
//
// where each helper H is defined elsewhere in the source as
//
//     H:function(a){a.reverse()}                          (reverse)
//     H:function(a,b){a.splice(0,b)}                      (splice)
//     H:function(a,b){var c=a[0];a[0]=a[b%a.length];...}  (swap)
//
// Helper and object names are cosmetic and change between player
// versions, so a helper is identified by the shape of its body alone:
// a body that calls `reverse(` is the reversal, one that calls
// `splice(` is the prefix removal, and one that reduces an index with
// `%` is the swap. The spec functions below define this grammar over
// the character sequence of the source; the executable matcher is
// proved to return exactly what the grammar says.
// ---------------------------------------------------------------------------

/// A character that may occur in an identifier of the player code.
pub open spec fn is_ident_char(c: char) -> bool {
    (('a' as u32) <= (c as u32) && (c as u32) <= ('z' as u32)) || (('A' as u32) <= (c as u32) && (
    c as u32) <= ('Z' as u32)) || (('0' as u32) <= (c as u32) && (c as u32) <= ('9' as u32)) || c
        == '_' || c == '$'
}

/// A decimal digit.
pub open spec fn is_digit_char(c: char) -> bool {
    ('0' as u32) <= (c as u32) && (c as u32) <= ('9' as u32)
}

/// `pat` occurs in `s` starting at position `i`.
pub open spec fn match_at(s: Seq<char>, pat: Seq<char>, i: int) -> bool {
    0 <= i && i + pat.len() <= s.len() && s.subrange(i, i + pat.len()) == pat
}

/// Position of the first occurrence of `pat` in `s` at or after `i`.
pub open spec fn first_match_from(s: Seq<char>, pat: Seq<char>, i: int) -> Option<int>
    decreases s.len() + 1 - i,
{
    if i < 0 || i + pat.len() > s.len() {
        None
    } else if match_at(s, pat, i) {
        Some(i)
    } else {
        first_match_from(s, pat, i + 1)
    }
}

/// End of the identifier starting at `i`: the first position at or
/// after `i` that holds no identifier character.
pub open spec fn ident_end(s: Seq<char>, i: int) -> int
    decreases s.len() - i,
{
    if i < 0 || i >= s.len() {
        i
    } else if is_ident_char(s[i]) {
        ident_end(s, i + 1)
    } else {
        i
    }
}

/// End of the digit run starting at `i`.
pub open spec fn digits_end(s: Seq<char>, i: int) -> int
    decreases s.len() - i,
{
    if i < 0 || i >= s.len() {
        i
    } else if is_digit_char(s[i]) {
        digits_end(s, i + 1)
    } else {
        i
    }
}

/// Value of a run of decimal digits.
pub open spec fn digits_val(s: Seq<char>) -> int
    decreases s.len(),
{
    if s.len() == 0 {
        0
    } else {
        digits_val(s.drop_last()) * 10 + (s.last() as u32 - '0' as u32)
    }
}

/// One call of the transform routine: `OBJ.NAME(ARG,NUM);`. Yields the
/// helper name, the numeric operand, and the position just past the
/// call.
pub open spec fn parse_call(s: Seq<char>, i: int) -> Option<(Seq<char>, int, int)> {
    let o_end = ident_end(s, i);
    if o_end == i || !(o_end < s.len() && s[o_end] == '.') {
        None
    } else {
        let n_start = o_end + 1;
        let n_end = ident_end(s, n_start);
        if n_end == n_start || !(n_end < s.len() && s[n_end] == '(') {
            None
        } else {
            let a_start = n_end + 1;
            let a_end = ident_end(s, a_start);
            if a_end == a_start || !(a_end < s.len() && s[a_end] == ',') {
                None
            } else {
                let d_start = a_end + 1;
                let d_end = digits_end(s, d_start);
                if !(1 <= d_end - d_start && d_end - d_start <= 9) {
                    None
                } else if !(d_end + 1 < s.len() && s[d_end] == ')' && s[d_end + 1] == ';') {
                    None
                } else {
                    Some(
                        (
                            s.subrange(n_start, n_end),
                            digits_val(s.subrange(d_start, d_end)),
                            d_end + 2,
                        ),
                    )
                }
            }
        }
    }
}

/// The routine's closing shape: `return ARG.join("")`.
pub open spec fn return_clause_at(s: Seq<char>, i: int) -> bool {
    match_at(s, "return "@, i) && {
        let v_start = i + "return "@.len();
        let v_end = ident_end(s, v_start);
        v_end > v_start && match_at(s, ".join(\"\")"@, v_end)
    }
}

/// The ordered call list of the transform routine, read from `i` up to
/// its return clause: helper names with their numeric operands.
pub open spec fn parse_calls(s: Seq<char>, i: int) -> Option<Seq<(Seq<char>, int)>>
    decreases s.len() - i,
{
    if i < 0 || i > s.len() {
        None
    } else if return_clause_at(s, i) {
        Some(Seq::empty())
    } else {
        match parse_call(s, i) {
            None => None,
            Some((name, num, j)) => if j <= i || j > s.len() {
                None
            } else {
                match parse_calls(s, j) {
                    None => None,
                    Some(rest) => Some(seq![(name, num)] + rest),
                }
            },
        }
    }
}

/// The behavioral classes a helper body can fall into.
#[derive(Debug, Clone, Copy, PartialEq, Eq, Structural)]
pub enum HelperKind {
    /// The body reverses the array.
    Reverse,
    /// The body removes a prefix.
    Splice,
    /// The body swaps two positions through a modulo-reduced index.
    Swap,
}

/// Classify a helper body by its shape, not its name.
pub open spec fn classify_body(b: Seq<char>) -> Option<HelperKind> {
    if first_match_from(b, "reverse("@, 0) is Some {
        Some(HelperKind::Reverse)
    } else if first_match_from(b, "splice("@, 0) is Some {
        Some(HelperKind::Splice)
    } else if first_match_from(b, "%"@, 0) is Some {
        Some(HelperKind::Swap)
    } else {
        None
    }
}

/// A helper definition `NAME:function(` stands at `i` (and `NAME` is
/// not the tail of a longer identifier).
pub open spec fn helper_def_at(s: Seq<char>, name: Seq<char>, i: int) -> bool {
    match_at(s, name + ":function("@, i) && (i == 0 || !is_ident_char(s[i - 1]))
}

/// Position of the first definition of helper `name` at or after `i`.
pub open spec fn find_helper_from(s: Seq<char>, name: Seq<char>, i: int) -> Option<int>
    decreases s.len() + 1 - i,
{
    let pat = name + ":function("@;
    if i < 0 || i + pat.len() > s.len() {
        None
    } else if helper_def_at(s, name, i) {
        Some(i)
    } else {
        find_helper_from(s, name, i + 1)
    }
}

/// The behavioral class of helper `name`: its first definition's body,
/// up to the closing brace, classified by shape.
pub open spec fn helper_kind(s: Seq<char>, name: Seq<char>) -> Option<HelperKind> {
    match find_helper_from(s, name, 0) {
        None => None,
        Some(d) => match first_match_from(s, seq!['}'], d) {
            None => None,
            Some(e) => classify_body(s.subrange(d, e)),
        },
    }
}

/// The cipher operation a classified call stands for.
pub open spec fn call_operation(kind: HelperKind, num: int) -> CipherOperation {
    match kind {
        HelperKind::Reverse => CipherOperation::Reverse,
        HelperKind::Splice => CipherOperation::Splice(num as usize),
        HelperKind::Swap => CipherOperation::Swap(num as usize),
    }
}

/// Resolve every call of the list against the helper definitions of
/// the source; fails if any helper cannot be classified.
pub open spec fn resolve_calls(s: Seq<char>, calls: Seq<(Seq<char>, int)>) -> Option<
    Seq<CipherOperation>,
>
    decreases calls.len(),
{
    if calls.len() == 0 {
        Some(Seq::empty())
    } else {
        match helper_kind(s, calls[0].0) {
            None => None,
            Some(kind) => match resolve_calls(s, calls.skip(1)) {
                None => None,
                Some(rest) => Some(seq![call_operation(kind, calls[0].1)] + rest),
            },
        }
    }
}

/// The marker that opens the transform routine's body.
pub open spec fn split_marker() -> Seq<char> {
    ".split(\"\");"@
}

/// The decipher program hidden in a player source, as the structural
/// grammar above defines it; `None` when no transform routine of that
/// shape is present.
pub open spec fn extract_program_spec(s: Seq<char>) -> Option<Seq<CipherOperation>> {
    match first_match_from(s, split_marker(), 0) {
        None => None,
        Some(m) => match parse_calls(s, m + split_marker().len()) {
            None => None,
            Some(calls) => resolve_calls(s, calls),
        },
    }
}

// ---------------------------------------------------------------------------
// Small facts about the grammar, used by the executable matcher.
// ---------------------------------------------------------------------------

/// Ten raised to small powers.
pub open spec fn pow10(n: nat) -> int
    decreases n,
{
    if n == 0 {
        1
    } else {
        10 * pow10((n - 1) as nat)
    }
}

proof fn lemma_pow10_pos(n: nat)
    ensures
        pow10(n) >= 1,
    decreases n,
{
    if n > 0 {
        lemma_pow10_pos((n - 1) as nat);
    }
}

proof fn lemma_pow10_mono(a: nat, b: nat)
    requires
        a <= b,
    ensures
        pow10(a) <= pow10(b),
    decreases b,
{
    if a < b {
        lemma_pow10_mono(a, (b - 1) as nat);
        lemma_pow10_pos((b - 1) as nat);
    }
}

proof fn lemma_pow10_values()
    ensures
        pow10(8) == 100000000,
        pow10(9) == 1000000000,
{
    assert(pow10(0) == 1);
    assert(pow10(1) == 10);
    assert(pow10(2) == 100);
    assert(pow10(3) == 1000);
    assert(pow10(4) == 10000);
    assert(pow10(5) == 100000);
    assert(pow10(6) == 1000000);
    assert(pow10(7) == 10000000);
    assert(pow10(8) == 100000000);
    assert(pow10(9) == 1000000000);
}

/// Everything before the digit-run end is a digit.
proof fn lemma_digits_end_digits(s: Seq<char>, i: int)
    requires
        0 <= i <= s.len(),
    ensures
        i <= digits_end(s, i) <= s.len(),
        forall|j: int| i <= j < digits_end(s, i) ==> is_digit_char(s[j]),
    decreases s.len() - i,
{
    if i < s.len() && is_digit_char(s[i]) {
        lemma_digits_end_digits(s, i + 1);
    }
}

/// A found first match lies inside the text and matches there.
proof fn lemma_first_match_some(s: Seq<char>, pat: Seq<char>, i: int, m: int)
    requires
        first_match_from(s, pat, i) == Some(m),
    ensures
        i <= m,
        m + pat.len() <= s.len(),
        match_at(s, pat, m),
    decreases s.len() + 1 - i,
{
    if !(i < 0 || i + pat.len() > s.len()) && !match_at(s, pat, i) {
        lemma_first_match_some(s, pat, i + 1, m);
    }
}

/// Splitting a resolved call list resolves its parts.
proof fn lemma_resolve_concat(s: Seq<char>, a: Seq<(Seq<char>, int)>, b: Seq<(Seq<char>, int)>)
    ensures
        resolve_calls(s, a + b) == (match resolve_calls(s, a) {
            None => None::<Seq<CipherOperation>>,
            Some(ra) => match resolve_calls(s, b) {
                None => None,
                Some(rb) => Some(ra + rb),
            },
        }),
    decreases a.len(),
{
    if a.len() == 0 {
        assert(a + b =~= b);
        if resolve_calls(s, b) is Some {
            assert(Seq::<CipherOperation>::empty() + resolve_calls(s, b)->Some_0
                =~= resolve_calls(s, b)->Some_0);
        }
    } else {
        let ab = a + b;
        assert(ab.len() > 0);
        assert(ab[0] == a[0]);
        assert(ab.skip(1) =~= a.skip(1) + b);
        lemma_resolve_concat(s, a.skip(1), b);
        match helper_kind(s, a[0].0) {
            None => {},
            Some(kind) => {
                let op = call_operation(kind, a[0].1);
                match resolve_calls(s, a.skip(1)) {
                    None => {},
                    Some(ra1) => {
                        match resolve_calls(s, b) {
                            None => {},
                            Some(rb) => {
                                assert(seq![op] + (ra1 + rb) =~= (seq![op] + ra1) + rb);
                            },
                        }
                    },
                }
            },
        }
    }
}

/// A single call resolves to its one operation.
proof fn lemma_resolve_singleton(s: Seq<char>, name: Seq<char>, num: int, kind: HelperKind)
    requires
        helper_kind(s, name) == Some(kind),
    ensures
        resolve_calls(s, seq![(name, num)]) == Some(seq![call_operation(kind, num)]),
{
    let calls = seq![(name, num)];
    assert(calls.skip(1) =~= Seq::<(Seq<char>, int)>::empty());
    assert(resolve_calls(s, Seq::<(Seq<char>, int)>::empty()) == Some(
        Seq::<CipherOperation>::empty(),
    ));
    assert(seq![call_operation(kind, num)] + Seq::<CipherOperation>::empty()
        =~= seq![call_operation(kind, num)]);
}

// ---------------------------------------------------------------------------
// The executable matcher, proved against the grammar.
// ---------------------------------------------------------------------------

fn is_ident_char_exec(c: char) -> (r: bool)
    ensures
        r == is_ident_char(c),
{
    let u = c as u32;
    (('a' as u32) <= u && u <= ('z' as u32)) || (('A' as u32) <= u && u <= ('Z' as u32)) || (('0'
        as u32) <= u && u <= ('9' as u32)) || c == '_' || c == '$'
}

fn is_digit_char_exec(c: char) -> (r: bool)
    ensures
        r == is_digit_char(c),
{
    let u = c as u32;
    ('0' as u32) <= u && u <= ('9' as u32)
}

fn match_at_exec(src: &Vec<char>, pat: &Vec<char>, i: usize) -> (r: bool)
    ensures
        r == match_at(src@, pat@, i as int),
{
    let n = src.len();
    let m = pat.len();
    if i > n || m > n - i {
        return false;
    }
    let mut j: usize = 0;
    while j < m
        invariant
            n == src@.len(),
            m == pat@.len(),
            i + m <= n,
            0 <= j <= m,
            forall|k: int| 0 <= k < j ==> src@[i + k] == pat@[k],
        decreases m - j,
    {
        if src[i + j] != pat[j] {
            proof {
                let sub = src@.subrange(i as int, i as int + m as int);
                assert(sub[j as int] == src@[i + j]);
                assert(sub[j as int] != pat@[j as int]);
            }
            return false;
        }
        j = j + 1;
    }
    proof {
        assert(src@.subrange(i as int, i as int + m as int) =~= pat@);
    }
    true
}

fn find_from(src: &Vec<char>, pat: &Vec<char>, start: usize) -> (r: Option<usize>)
    requires
        pat@.len() >= 1,
    ensures
        match r {
            Some(m) => first_match_from(src@, pat@, start as int) == Some(m as int),
            None => first_match_from(src@, pat@, start as int) is None,
        },
{
    let n = src.len();
    let m = pat.len();
    if start > n || m > n - start {
        return None;
    }
    let mut i: usize = start;
    while i <= n - m
        invariant
            n == src@.len(),
            m == pat@.len(),
            1 <= m <= n,
            start <= i <= n - m + 1,
            first_match_from(src@, pat@, start as int) == first_match_from(src@, pat@, i as int),
        decreases n - m + 1 - i,
    {
        if match_at_exec(src, pat, i) {
            return Some(i);
        }
        i = i + 1;
    }
    None
}

fn ident_end_exec(src: &Vec<char>, i: usize) -> (r: usize)
    requires
        i <= src@.len(),
    ensures
        i <= r <= src@.len(),
        r as int == ident_end(src@, i as int),
{
    let n = src.len();
    let mut j: usize = i;
    while j < n
        invariant
            i <= j <= n,
            n == src@.len(),
            ident_end(src@, i as int) == ident_end(src@, j as int),
        decreases n - j,
    {
        if !is_ident_char_exec(src[j]) {
            return j;
        }
        j = j + 1;
    }
    j
}

fn digits_end_exec(src: &Vec<char>, i: usize) -> (r: usize)
    requires
        i <= src@.len(),
    ensures
        i <= r <= src@.len(),
        r as int == digits_end(src@, i as int),
{
    let n = src.len();
    let mut j: usize = i;
    while j < n
        invariant
            i <= j <= n,
            n == src@.len(),
            digits_end(src@, i as int) == digits_end(src@, j as int),
        decreases n - j,
    {
        if !is_digit_char_exec(src[j]) {
            return j;
        }
        j = j + 1;
    }
    j
}

fn digits_value_exec(src: &Vec<char>, a: usize, b: usize) -> (r: usize)
    requires
        a <= b <= src@.len(),
        b - a <= 9,
        forall|j: int| a <= j < b ==> is_digit_char(src@[j]),
    ensures
        r as int == digits_val(src@.subrange(a as int, b as int)),
{
    proof {
        lemma_pow10_values();
        assert(src@.subrange(a as int, a as int) =~= Seq::<char>::empty());
    }
    let mut val: usize = 0;
    let mut j: usize = a;
    while j < b
        invariant
            a <= j <= b <= src@.len(),
            b - a <= 9,
            forall|k: int| a <= k < b ==> is_digit_char(src@[k]),
            val as int == digits_val(src@.subrange(a as int, j as int)),
            (val as int) < pow10((j - a) as nat),
        decreases b - j,
    {
        proof {
            lemma_pow10_values();
            lemma_pow10_mono((j - a) as nat, 8);
            let oldsub = src@.subrange(a as int, j as int);
            let newsub = src@.subrange(a as int, j as int + 1);
            assert(newsub.drop_last() =~= oldsub);
            assert(newsub.last() == src@[j as int]);
        }
        let c = src[j];
        let d = (c as u32 - ('0' as u32)) as usize;
        val = val * 10 + d;
        j = j + 1;
    }
    val
}

fn copy_range(src: &Vec<char>, a: usize, b: usize) -> (r: Vec<char>)
    requires
        a <= b <= src@.len(),
    ensures
        r@ == src@.subrange(a as int, b as int),
{
    let mut r: Vec<char> = Vec::new();
    let mut j: usize = a;
    while j < b
        invariant
            a <= j <= b <= src@.len(),
            r@ == src@.subrange(a as int, j as int),
        decreases b - j,
    {
        r.push(src[j]);
        assert(r@ =~= src@.subrange(a as int, j as int + 1));
        j = j + 1;
    }
    assert(r@ =~= src@.subrange(a as int, b as int));
    r
}

fn append_chars(dst: &mut Vec<char>, src: &Vec<char>)
    ensures
        final(dst)@ == old(dst)@ + src@,
{
    let n = src.len();
    let mut j: usize = 0;
    while j < n
        invariant
            0 <= j <= n,
            n == src@.len(),
            dst@ == old(dst)@ + src@.subrange(0, j as int),
        decreases n - j,
    {
        dst.push(src[j]);
        assert(dst@ =~= old(dst)@ + src@.subrange(0, j as int + 1));
        j = j + 1;
    }
    assert(dst@ =~= old(dst)@ + src@);
}

fn parse_call_exec(src: &Vec<char>, i: usize) -> (r: Option<(Vec<char>, usize, usize)>)
    requires
        i <= src@.len(),
    ensures
        match r {
            Some(t) => parse_call(src@, i as int) == Some((t.0@, t.1 as int, t.2 as int)) && i
                < t.2 <= src@.len(),
            None => parse_call(src@, i as int) is None,
        },
{
    let n = src.len();
    let o_end = ident_end_exec(src, i);
    if o_end == i || o_end >= n {
        return None;
    }
    if src[o_end] != '.' {
        return None;
    }
    let n_start = o_end + 1;
    let n_end = ident_end_exec(src, n_start);
    if n_end == n_start || n_end >= n {
        return None;
    }
    if src[n_end] != '(' {
        return None;
    }
    let a_start = n_end + 1;
    let a_end = ident_end_exec(src, a_start);
    if a_end == a_start || a_end >= n {
        return None;
    }
    if src[a_end] != ',' {
        return None;
    }
    let d_start = a_end + 1;
    let d_end = digits_end_exec(src, d_start);
    if !(d_start < d_end && d_end - d_start <= 9) {
        return None;
    }
    if d_end >= n {
        return None;
    }
    if d_end + 1 >= n {
        return None;
    }
    if src[d_end] != ')' || src[d_end + 1] != ';' {
        return None;
    }
    proof {
        lemma_digits_end_digits(src@, d_start as int);
    }
    let num = digits_value_exec(src, d_start, d_end);
    let name = copy_range(src, n_start, n_end);
    Some((name, num, d_end + 2))
}

fn return_clause_exec(src: &Vec<char>, i: usize, ret_pat: &Vec<char>, join_pat: &Vec<char>) -> (r:
    bool)
    requires
        ret_pat@ == "return "@,
        join_pat@ == ".join(\"\")"@,
    ensures
        r == return_clause_at(src@, i as int),
{
    if !match_at_exec(src, ret_pat, i) {
        return false;
    }
    let n = src.len();
    assert(i + ret_pat@.len() <= n);
    let v_start = i + ret_pat.len();
    let v_end = ident_end_exec(src, v_start);
    if v_end == v_start {
        return false;
    }
    match_at_exec(src, join_pat, v_end)
}

fn find_helper_exec(src: &Vec<char>, name: &Vec<char>, pat: &Vec<char>) -> (r: Option<usize>)
    requires
        pat@ == name@ + ":function("@,
    ensures
        match r {
            Some(d) => find_helper_from(src@, name@, 0) == Some(d as int) && d + pat@.len()
                <= src@.len(),
            None => find_helper_from(src@, name@, 0) is None,
        },
{
    let n = src.len();
    let m = pat.len();
    proof {
        reveal_strlit(":function(");
    }
    if m > n {
        return None;
    }
    let mut i: usize = 0;
    while i <= n - m
        invariant
            n == src@.len(),
            m == pat@.len(),
            1 <= m <= n,
            pat@ == name@ + ":function("@,
            0 <= i <= n - m + 1,
            find_helper_from(src@, name@, 0) == find_helper_from(src@, name@, i as int),
        decreases n - m + 1 - i,
    {
        let mut ok = match_at_exec(src, pat, i);
        if ok && i > 0 {
            if is_ident_char_exec(src[i - 1]) {
                ok = false;
            }
        }
        if ok {
            assert(helper_def_at(src@, name@, i as int));
            return Some(i);
        }
        assert(!helper_def_at(src@, name@, i as int));
        i = i + 1;
    }
    None
}

fn helper_kind_exec(src: &Vec<char>, name: &Vec<char>) -> (r: Option<HelperKind>)
    ensures
        match r {
            Some(k) => helper_kind(src@, name@) == Some(k),
            None => helper_kind(src@, name@) is None,
        },
{
    let mut pat = copy_range(name, 0, name.len());
    let tail = str_to_chars(":function(");
    append_chars(&mut pat, &tail);
    assert(name@.subrange(0, name@.len() as int) =~= name@);
    assert(pat@ == name@ + ":function("@);

    let d = match find_helper_exec(src, name, &pat) {
        Some(d) => d,
        None => {
            return None;
        },
    };
    let mut brace_pat: Vec<char> = Vec::new();
    brace_pat.push('}');
    assert(brace_pat@ =~= seq!['}']);
    let e = match find_from(src, &brace_pat, d) {
        Some(e) => e,
        None => {
            return None;
        },
    };
    proof {
        lemma_first_match_some(src@, brace_pat@, d as int, e as int);
    }
    let body = copy_range(src, d, e);
    let rev_pat = str_to_chars("reverse(");
    let spl_pat = str_to_chars("splice(");
    let pct_pat = str_to_chars("%");
    proof {
        reveal_strlit("reverse(");
        reveal_strlit("splice(");
        reveal_strlit("%");
    }
    if find_from(&body, &rev_pat, 0).is_some() {
        Some(HelperKind::Reverse)
    } else if find_from(&body, &spl_pat, 0).is_some() {
        Some(HelperKind::Splice)
    } else if find_from(&body, &pct_pat, 0).is_some() {
        Some(HelperKind::Swap)
    } else {
        None
    }
}

/// Locates the transform routine in a player source and derives its
/// replayable decipher program. Fails with `CipherPatternNotFound`
/// exactly when the source holds no routine of the structural shape
/// the grammar describes.
pub fn derive_program(source: &str) -> (r: Result<DecipherProgram, ExtractionError>)
    ensures
        match r {
            Ok(p) => extract_program_spec(source@) == Some(p@),
            Err(e) => extract_program_spec(source@) is None && e is CipherPatternNotFound,
        },
{
    let src = str_to_chars(source);
    let marker = str_to_chars(".split(\"\");");
    let ret_pat = str_to_chars("return ");
    let join_pat = str_to_chars(".join(\"\")");
    proof {
        reveal_strlit(".split(\"\");");
    }

    let m = match find_from(&src, &marker, 0) {
        Some(m) => m,
        None => {
            return Err(ExtractionError::CipherPatternNotFound);
        },
    };
    let n = src.len();
    proof {
        lemma_first_match_some(src@, marker@, 0, m as int);
        assert(m + marker@.len() <= n);
    }
    let start = m + marker.len();
    let ghost s = src@;

    let mut ops: Vec<CipherOperation> = Vec::new();
    let ghost mut gcalls: Seq<(Seq<char>, int)> = Seq::empty();
    let mut i: usize = start;

    proof {
        if parse_calls(s, start as int) is Some {
            assert(Seq::<(Seq<char>, int)>::empty() + parse_calls(s, start as int)->Some_0
                =~= parse_calls(s, start as int)->Some_0);
        }
    }
    loop
        invariant
            s == src@,
            s == source@,
            start <= i <= s.len(),
            marker@ == split_marker(),
            ret_pat@ == "return "@,
            join_pat@ == ".join(\"\")"@,
            first_match_from(s, split_marker(), 0) == Some(m as int),
            start as int == m + split_marker().len(),
            parse_calls(s, start as int) == (match parse_calls(s, i as int) {
                None => None::<Seq<(Seq<char>, int)>>,
                Some(rest) => Some(gcalls + rest),
            }),
            resolve_calls(s, gcalls) == Some(ops@),
        decreases s.len() - i,
    {
        if return_clause_exec(&src, i, &ret_pat, &join_pat) {
            proof {
                assert(parse_calls(s, i as int) == Some(Seq::<(Seq<char>, int)>::empty()));
                assert(gcalls + Seq::<(Seq<char>, int)>::empty() =~= gcalls);
            }
            return Ok(DecipherProgram::from_ops(ops));
        }
        let (name, num, next) = match parse_call_exec(&src, i) {
            Some(t) => t,
            None => {
                assert(parse_calls(s, i as int) is None);
                return Err(ExtractionError::CipherPatternNotFound);
            },
        };
        let kind = match helper_kind_exec(&src, &name) {
            Some(k) => k,
            None => {
                proof {
                    let x = (name@, num as int);
                    match parse_calls(s, next as int) {
                        None => {
                            assert(parse_calls(s, i as int) is None);
                        },
                        Some(rest1) => {
                            assert(parse_calls(s, i as int) == Some(seq![x] + rest1));
                            let b = seq![x] + rest1;
                            lemma_resolve_concat(s, gcalls, b);
                            assert(b[0] == x);
                            assert(resolve_calls(s, b) is None);
                        },
                    }
                }
                return Err(ExtractionError::CipherPatternNotFound);
            },
        };
        let op = match kind {
            HelperKind::Reverse => CipherOperation::Reverse,
            HelperKind::Splice => CipherOperation::Splice(num),
            HelperKind::Swap => CipherOperation::Swap(num),
        };
        proof {
            let x = (name@, num as int);
            assert(op == call_operation(kind, num as int));
            lemma_resolve_concat(s, gcalls, seq![x]);
            lemma_resolve_singleton(s, name@, num as int, kind);
            assert(ops@ + seq![op] =~= ops@.push(op));
            match parse_calls(s, next as int) {
                None => {},
                Some(rest1) => {
                    assert(parse_calls(s, i as int) == Some(seq![x] + rest1));
                    assert(gcalls + (seq![x] + rest1) =~= (gcalls + seq![x]) + rest1);
                },
            }
            gcalls = gcalls + seq![x];
        }
        ops.push(op);
        i = next;
    }
}

} // verus!
