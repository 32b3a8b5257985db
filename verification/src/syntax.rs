//! The textual program representation: tokens, variable names, and
//! statements.  A program is a sequence of lines `var = token ...`; the
//! tokens build an expression graph in reverse-polish style, with `Ap`
//! marking an application of the next expression to the one after it.

use vstd::prelude::*;

verus! {

/// A binding name: either a named binding or a numbered temporary
/// (written `:123` in program text).
#[derive(Debug, PartialEq, Eq, Hash)]
pub enum Var {
    Named(String),
    Temp(u32),
}

impl Clone for Var {
    fn clone(&self) -> (r: Self)
        ensures
            r == *self,
    {
        match self {
            Var::Named(s) => Var::Named(s.clone()),
            Var::Temp(n) => Var::Temp(*n),
        }
    }
}

/// The mathematical identity of a variable, used by contracts: two
/// variables are the same binding exactly when their keys are equal.
pub enum VarKey {
    Named(Seq<char>),
    Temp(u32),
}

/// The key of a variable.
pub open spec fn var_key(v: Var) -> VarKey {
    match v {
        Var::Named(s) => VarKey::Named(s@),
        Var::Temp(n) => VarKey::Temp(n),
    }
}

/// Decides whether two variables are the same binding.
pub fn var_eq(a: &Var, b: &Var) -> (r: bool)
    ensures
        r == (var_key(*a) == var_key(*b)),
{
    match (a, b) {
        (Var::Named(x), Var::Named(y)) => x.eq(y),
        (Var::Temp(x), Var::Temp(y)) => x == y,
        _ => false,
    }
}

/// One token of the program text.
#[derive(Debug, PartialEq)]
pub enum Token {
    Number(i64),
    Inc,
    Dec,
    Add,
    Var(Var),
    Mul,
    Div,
    Eq,
    Lt,
    Neg,
    Ap,
    S,
    C,
    B,
    True,
    False,
    Pwr2,
    I,
    Cons,
    Head,
    Tail,
    Nil,
    IsNil,
    Mod,
    Dem,
    Send,
    Draw,
    Checkerboard,
    MultiDraw,
    If0,
    Interact,
    StatelessDraw,
    StatefulDraw,
    Galaxy,
}

impl Clone for Token {
    fn clone(&self) -> (r: Self)
        ensures
            r == *self,
    {
        match self {
            Token::Number(n) => Token::Number(*n),
            Token::Var(v) => Token::Var(v.clone()),
            Token::Inc => Token::Inc,
            Token::Dec => Token::Dec,
            Token::Add => Token::Add,
            Token::Mul => Token::Mul,
            Token::Div => Token::Div,
            Token::Eq => Token::Eq,
            Token::Lt => Token::Lt,
            Token::Neg => Token::Neg,
            Token::Ap => Token::Ap,
            Token::S => Token::S,
            Token::C => Token::C,
            Token::B => Token::B,
            Token::True => Token::True,
            Token::False => Token::False,
            Token::Pwr2 => Token::Pwr2,
            Token::I => Token::I,
            Token::Cons => Token::Cons,
            Token::Head => Token::Head,
            Token::Tail => Token::Tail,
            Token::Nil => Token::Nil,
            Token::IsNil => Token::IsNil,
            Token::Mod => Token::Mod,
            Token::Dem => Token::Dem,
            Token::Send => Token::Send,
            Token::Draw => Token::Draw,
            Token::Checkerboard => Token::Checkerboard,
            Token::MultiDraw => Token::MultiDraw,
            Token::If0 => Token::If0,
            Token::Interact => Token::Interact,
            Token::StatelessDraw => Token::StatelessDraw,
            Token::StatefulDraw => Token::StatefulDraw,
            Token::Galaxy => Token::Galaxy,
        }
    }
}

/// One statement: a binding name and the token sequence of its body.
#[derive(Debug)]
pub struct Stmt {
    pub var: Var,
    pub code: Vec<Token>,
}

/// Whether `c` is the space character.
pub open spec fn is_space_char(c: char) -> bool {
    c as int == 32
}

/// Whether `c` is a decimal digit.
pub open spec fn is_digit_char(c: char) -> bool {
    48 <= c as int <= 57
}

/// The first space in `s`.
pub open spec fn first_space(s: Seq<char>) -> Option<int>
    decreases s.len(),
{
    if s.len() == 0 {
        None
    } else if is_space_char(s[0]) {
        Some(0)
    } else {
        match first_space(s.skip(1)) {
            None => None,
            Some(i) => Some(i + 1),
        }
    }
}

/// The words of `s`, split on single spaces (empty words kept).
pub open spec fn spec_words(s: Seq<char>) -> Seq<Seq<char>>
    decreases s.len(),
{
    match first_space(s) {
        None => seq![s],
        Some(i) => if 0 <= i < s.len() {
            seq![s.take(i)] + spec_words(s.skip(i + 1))
        } else {
            seq![s]
        },
    }
}

/// Whether every character of `s` is a decimal digit.
pub open spec fn all_digits(s: Seq<char>) -> bool {
    forall|i: int| 0 <= i < s.len() ==> is_digit_char(#[trigger] s[i])
}

/// The number denoted by a digit sequence.
pub open spec fn digits_val(s: Seq<char>) -> nat
    decreases s.len(),
{
    if s.len() == 0 {
        0
    } else {
        digits_val(s.drop_last()) * 10 + (s.last() as int - 48) as nat
    }
}

/// The token denoted by one program word, if any: a builtin name, a
/// `:`-prefixed numbered temporary, or a number.  An unknown word, an
/// empty digit string, or a value out of range denotes no token.
pub open spec fn spec_word_token(w: Seq<char>) -> Option<Token> {
    if w == "inc"@ {
        Some(Token::Inc)
    } else if w == "dec"@ {
        Some(Token::Dec)
    } else if w == "add"@ {
        Some(Token::Add)
    } else if w == "mul"@ {
        Some(Token::Mul)
    } else if w == "div"@ {
        Some(Token::Div)
    } else if w == "eq"@ {
        Some(Token::Eq)
    } else if w == "lt"@ {
        Some(Token::Lt)
    } else if w == "neg"@ {
        Some(Token::Neg)
    } else if w == "ap"@ {
        Some(Token::Ap)
    } else if w == "s"@ {
        Some(Token::S)
    } else if w == "c"@ {
        Some(Token::C)
    } else if w == "b"@ {
        Some(Token::B)
    } else if w == "t"@ {
        Some(Token::True)
    } else if w == "f"@ {
        Some(Token::False)
    } else if w == "pwr2"@ {
        Some(Token::Pwr2)
    } else if w == "i"@ {
        Some(Token::I)
    } else if w == "cons"@ || w == "vec"@ {
        Some(Token::Cons)
    } else if w == "car"@ {
        Some(Token::Head)
    } else if w == "cdr"@ {
        Some(Token::Tail)
    } else if w == "nil"@ {
        Some(Token::Nil)
    } else if w == "isnil"@ {
        Some(Token::IsNil)
    } else if w.len() > 0 && w[0] as int == 58 {
        // a `:`-numbered temporary
        let digits = w.skip(1);
        if digits.len() > 0 && all_digits(digits) && digits_val(digits) <= u32::MAX {
            Some(Token::Var(Var::Temp(digits_val(digits) as u32)))
        } else {
            None
        }
    } else if w.len() > 0 && all_digits(w) {
        if digits_val(w) <= 0x7fff_ffff_ffff_ffff {
            Some(Token::Number(digits_val(w) as i64))
        } else {
            None
        }
    } else if w.len() > 1 && w[0] as int == 45 && all_digits(w.skip(1)) {
        if digits_val(w.skip(1)) <= 0x8000_0000_0000_0000 {
            Some(Token::Number((-(digits_val(w.skip(1)) as int)) as i64))
        } else {
            None
        }
    } else {
        None
    }
}

/// Folds the words of a program body into tokens.  `)` closes a list
/// item as `nil`; a pending `(` or `,` prefixes the next expression with
/// the `ap ap cons` list sugar.
pub open spec fn spec_parse_words(ws: Seq<Seq<char>>, acc: Seq<Token>, new_item: bool) -> Option<
    Seq<Token>,
>
    decreases ws.len(),
{
    if ws.len() == 0 {
        Some(acc)
    } else {
        let w = ws[0];
        if w == ")"@ {
            spec_parse_words(ws.skip(1), acc.push(Token::Nil), false)
        } else {
            let acc1 = if new_item {
                acc + seq![Token::Ap, Token::Ap, Token::Cons]
            } else {
                acc
            };
            if w == "("@ || w == ","@ {
                spec_parse_words(ws.skip(1), acc1, true)
            } else {
                match spec_word_token(w) {
                    None => None,
                    Some(t) => spec_parse_words(ws.skip(1), acc1.push(t), false),
                }
            }
        }
    }
}

/// The token sequence of a program body, or `None` when some word is not
/// a token of the language.
pub open spec fn spec_parse(s: Seq<char>) -> Option<Seq<Token>> {
    if !vstd::utf8::is_ascii_chars(s) {
        None
    } else {
        spec_parse_words(spec_words(s), Seq::empty(), false)
    }
}

/// The first position of the ` = ` separator.
pub open spec fn first_assign(s: Seq<char>) -> Option<int>
    decreases s.len(),
{
    if s.len() < 3 {
        None
    } else if is_space_char(s[0]) && s[1] as int == 61 && is_space_char(s[2]) {
        Some(0)
    } else {
        match first_assign(s.skip(1)) {
            None => None,
            Some(i) => Some(i + 1),
        }
    }
}

/// The first position of the `==` separator.
pub open spec fn first_eqeq(s: Seq<char>) -> Option<int>
    decreases s.len(),
{
    if s.len() < 2 {
        None
    } else if s[0] as int == 61 && s[1] as int == 61 {
        Some(0)
    } else {
        match first_eqeq(s.skip(1)) {
            None => None,
            Some(i) => Some(i + 1),
        }
    }
}

/// The segment between the start of `s` and its first `==`, or all of
/// `s` when there is none.
pub open spec fn before_eqeq(s: Seq<char>) -> Seq<char> {
    match first_eqeq(s) {
        None => s,
        Some(i) => s.take(i),
    }
}

/// The segment between the first `==` of `s` and the following `==` or
/// the end.
pub open spec fn after_eqeq(s: Seq<char>) -> Option<Seq<char>> {
    match first_eqeq(s) {
        None => None,
        Some(i) => Some(before_eqeq(s.skip(i + 2))),
    }
}

/// Whether `c` is trimmed whitespace.
pub open spec fn is_trim_char(c: char) -> bool {
    c as int == 32 || c as int == 9 || c as int == 10 || c as int == 13
}

/// `s` without leading whitespace.
pub open spec fn trim_front(s: Seq<char>) -> Seq<char>
    decreases s.len(),
{
    if s.len() > 0 && is_trim_char(s[0]) {
        trim_front(s.skip(1))
    } else {
        s
    }
}

/// `s` without trailing whitespace.
pub open spec fn trim_back(s: Seq<char>) -> Seq<char>
    decreases s.len(),
{
    if s.len() > 0 && is_trim_char(s.last()) {
        trim_back(s.drop_last())
    } else {
        s
    }
}

/// `s` without surrounding whitespace.
pub open spec fn spec_trim(s: Seq<char>) -> Seq<char> {
    trim_back(trim_front(s))
}

/// The binding key denoted by the left-hand side of a statement: a
/// `:`-prefixed number names a temporary, anything else a named binding.
pub open spec fn spec_var_of(s: Seq<char>) -> Option<VarKey> {
    if s.len() > 0 && s[0] as int == 58 {
        let digits = s.skip(1);
        if digits.len() > 0 && all_digits(digits) && digits_val(digits) <= u32::MAX {
            Some(VarKey::Temp(digits_val(digits) as u32))
        } else {
            None
        }
    } else {
        Some(VarKey::Named(s))
    }
}

/// A statement line `var = body`: the binding key and the body's tokens.
/// `None` when the separator is missing, the variable is malformed, or
/// the body does not tokenize.  Only the segment up to a second ` = `
/// separator is read as the body.
pub open spec fn spec_parse_line(s: Seq<char>) -> Option<(VarKey, Seq<Token>)> {
    if !vstd::utf8::is_ascii_chars(s) {
        None
    } else {
        match first_assign(s) {
            None => None,
            Some(i) => {
                let rest_full = s.skip(i + 3);
                let rest = match first_assign(rest_full) {
                    None => rest_full,
                    Some(j) => rest_full.take(j),
                };
                match spec_var_of(s.take(i)) {
                    None => None,
                    Some(key) => match spec_parse(rest) {
                        None => None,
                        Some(toks) => Some((key, toks)),
                    },
                }
            },
        }
    }
}

/// The two bodies of a test line `left == right`, trimmed and tokenized.
pub open spec fn spec_parse_test(s: Seq<char>) -> Option<(Seq<Token>, Seq<Token>)> {
    if !vstd::utf8::is_ascii_chars(s) {
        None
    } else {
        match after_eqeq(s) {
            None => None,
            Some(right) => match (
                spec_parse(spec_trim(before_eqeq(s))),
                spec_parse(spec_trim(right)),
            ) {
                (Some(a), Some(b)) => Some((a, b)),
                _ => None,
            },
        }
    }
}

/// The body of a picture line: everything before a `==`, trimmed and
/// tokenized.
pub open spec fn spec_parse_picture(s: Seq<char>) -> Option<Seq<Token>> {
    if !vstd::utf8::is_ascii_chars(s) {
        None
    } else {
        spec_parse(spec_trim(before_eqeq(s)))
    }
}

proof fn lemma_first_space_shift(s: Seq<char>, k: nat)
    requires
        k <= s.len(),
        forall|j: int| 0 <= j < k ==> !is_space_char(#[trigger] s[j]),
    ensures
        first_space(s) == match first_space(s.skip(k as int)) {
            None => None::<int>,
            Some(i) => Some(i + k),
        },
    decreases k,
{
    if k > 0 {
        let s1 = s.skip(1);
        assert(forall|j: int| 0 <= j < k - 1 ==> !is_space_char(#[trigger] s1[j]));
        lemma_first_space_shift(s1, (k - 1) as nat);
        assert(s1.skip(k - 1) =~= s.skip(k as int));
    } else {
        assert(s.skip(0) =~= s);
    }
}

proof fn lemma_first_assign_shift(s: Seq<char>, k: nat)
    requires
        k <= s.len(),
        forall|j: int|
            0 <= j < k ==> !(j + 3 <= s.len() && is_space_char(#[trigger] s[j]) && s[j + 1] as int
                == 61 && is_space_char(s[j + 2])),
    ensures
        first_assign(s) == match first_assign(s.skip(k as int)) {
            None => None::<int>,
            Some(i) => Some(i + k),
        },
    decreases k,
{
    if k > 0 {
        let s1 = s.skip(1);
        assert forall|j: int|
            0 <= j < k - 1 implies !(j + 3 <= s1.len() && is_space_char(#[trigger] s1[j]) && s1[j
            + 1] as int == 61 && is_space_char(s1[j + 2])) by {
            assert(s1 =~= s.subrange(1, s.len() as int));
        }
        lemma_first_assign_shift(s1, (k - 1) as nat);
        assert(s1.skip(k - 1) =~= s.skip(k as int));
    } else {
        assert(s.skip(0) =~= s);
    }
}

proof fn lemma_first_eqeq_shift(s: Seq<char>, k: nat)
    requires
        k <= s.len(),
        forall|j: int|
            0 <= j < k ==> !(j + 2 <= s.len() && #[trigger] s[j] as int == 61 && s[j + 1] as int
                == 61),
    ensures
        first_eqeq(s) == match first_eqeq(s.skip(k as int)) {
            None => None::<int>,
            Some(i) => Some(i + k),
        },
    decreases k,
{
    if k > 0 {
        let s1 = s.skip(1);
        lemma_first_eqeq_shift(s1, (k - 1) as nat);
        assert(s1.skip(k - 1) =~= s.skip(k as int));
    } else {
        assert(s.skip(0) =~= s);
    }
}

proof fn lemma_trim_front_at(s: Seq<char>, k: nat)
    requires
        k <= s.len(),
        forall|j: int| 0 <= j < k ==> is_trim_char(#[trigger] s[j]),
        k == s.len() || !is_trim_char(s[k as int]),
    ensures
        trim_front(s) == s.skip(k as int),
    decreases k,
{
    if k > 0 {
        let s1 = s.skip(1);
        lemma_trim_front_at(s1, (k - 1) as nat);
        assert(s1.skip(k - 1) =~= s.skip(k as int));
    } else {
        assert(s.skip(0) =~= s);
    }
}

proof fn lemma_trim_back_at(s: Seq<char>, k: nat)
    requires
        k <= s.len(),
        forall|j: int| k <= j < s.len() ==> is_trim_char(#[trigger] s[j]),
        k == 0 || !is_trim_char(s[k - 1]),
    ensures
        trim_back(s) == s.take(k as int),
    decreases s.len(),
{
    if s.len() > k {
        lemma_trim_back_at(s.drop_last(), k);
        assert(s.drop_last().take(k as int) =~= s.take(k as int));
    } else {
        assert(s.take(k as int) =~= s);
    }
}

/// Monotonicity of digit values under extension.
proof fn lemma_digits_val_prefix(s: Seq<char>, k: nat)
    requires
        k <= s.len(),
    ensures
        digits_val(s) >= digits_val(s.take(k as int)),
    decreases s.len(),
{
    if s.len() > k {
        lemma_digits_val_prefix(s.drop_last(), k);
        assert(s.drop_last().take(k as int) =~= s.take(k as int));
        assert(digits_val(s) == digits_val(s.drop_last()) * 10 + (s.last() as int - 48) as nat);
        assert(digits_val(s.drop_last()) * 10 >= digits_val(s.drop_last())) by (nonlinear_arith);
    } else {
        assert(s.take(k as int) =~= s);
    }
}

/// Decides whether two ASCII strings hold the same characters.
fn str_eq(a: &str, b: &str) -> (r: bool)
    requires
        a.is_ascii(),
        b.is_ascii(),
    ensures
        r == (a@ == b@),
{
    let la = a.unicode_len();
    let lb = b.unicode_len();
    if la != lb {
        return false;
    }
    let mut i: usize = 0;
    while i < la
        invariant
            i <= la,
            la == a@.len(),
            la == b@.len(),
            a.is_ascii(),
            b.is_ascii(),
            forall|j: int| 0 <= j < i ==> a@[j] == b@[j],
        decreases la - i,
    {
        let ca = a.get_ascii(i);
        let cb = b.get_ascii(i);
        proof {
            assert(((a@[i as int]) as int) < 128);
            assert(((b@[i as int]) as int) < 128);
            assert(((a@[i as int]) as u8) as int == (a@[i as int]) as int);
            assert(((b@[i as int]) as u8) as int == (b@[i as int]) as int);
        }
        if ca != cb {
            proof {
                assert((a@[i as int]) as int != (b@[i as int]) as int);
                assert(a@ != b@);
            }
            return false;
        }
        proof {
            assert((a@[i as int]) as int == (b@[i as int]) as int);
            assert(a@[i as int] == b@[i as int]);
        }
        i = i + 1;
    }
    proof {
        assert(a@ =~= b@);
    }
    true
}

/// Reads the digit string of `w` from position `from` to the end as a
/// number, refusing an empty string, a non-digit, or a value above
/// `limit`.
fn parse_digits(w: &str, from: usize, limit: u64) -> (r: Option<u64>)
    requires
        w.is_ascii(),
        from <= w@.len(),
    ensures
        ({
            let d = w@.skip(from as int);
            if d.len() > 0 && all_digits(d) && digits_val(d) <= limit {
                r == Some(digits_val(d) as u64)
            } else {
                r is None
            }
        }),
{
    let ghost d = w@.skip(from as int);
    let n = w.unicode_len();
    if from >= n {
        return None;
    }
    let mut v: u64 = 0;
    let mut i: usize = from;
    while i < n
        invariant
            from <= i <= n,
            n == w@.len(),
            w.is_ascii(),
            d == w@.skip(from as int),
            all_digits(d.take(i - from)),
            v as nat == digits_val(d.take(i - from)),
            v <= limit,
        decreases n - i,
    {
        let b = w.get_ascii(i);
        proof {
            assert(((w@[i as int]) as int) < 128);
            assert(((w@[i as int]) as u8) as int == (w@[i as int]) as int);
            assert(d[i - from] == w@[i as int]);
        }
        if b < 48 || b > 57 {
            proof {
                assert(!is_digit_char(d[i - from]));
                assert(!all_digits(d));
            }
            return None;
        }
        let dig = (b - 48) as u64;
        if v > limit / 10 || (v == limit / 10 && dig > limit % 10) {
            proof {
                assert(d.take(i - from + 1).drop_last() =~= d.take(i - from));
                assert(d.take(i - from + 1).last() == d[i - from]);
                assert(digits_val(d.take(i - from + 1)) == v as nat * 10 + dig as nat);
                assert(limit == 10 * (limit / 10) + limit % 10) by {
                    vstd::arithmetic::div_mod::lemma_fundamental_div_mod(limit as int, 10);
                }
                assert(v as nat * 10 + dig as nat > limit) by (nonlinear_arith)
                    requires
                        v > limit / 10 || (v == limit / 10 && dig > limit % 10),
                        limit == 10 * (limit / 10) + limit % 10,
                        dig >= 0,
                ;
                lemma_digits_val_prefix(d, (i - from + 1) as nat);
                assert(digits_val(d) > limit);
            }
            return None;
        }
        proof {
            assert(d.take(i - from + 1).drop_last() =~= d.take(i - from));
            assert(d.take(i - from + 1).last() == d[i - from]);
            assert(limit == 10 * (limit / 10) + limit % 10) by {
                vstd::arithmetic::div_mod::lemma_fundamental_div_mod(limit as int, 10);
            }
            assert(v as nat * 10 + dig as nat <= limit) by (nonlinear_arith)
                requires
                    v <= limit / 10,
                    !(v > limit / 10 || (v == limit / 10 && dig > limit % 10)),
                    limit == 10 * (limit / 10) + limit % 10,
                    dig <= 9,
            ;
            assert(is_digit_char(d[i - from]));
            assert(all_digits(d.take(i - from + 1)));
        }
        v = 10 * v + dig;
        i = i + 1;
    }
    proof {
        assert(d.take(i - from) =~= d);
    }
    Some(v)
}

/// The token denoted by one program word.
fn word_token(w: &str) -> (r: Option<Token>)
    requires
        w.is_ascii(),
    ensures
        r == spec_word_token(w@),
{
    proof {
        reveal_strlit("inc");
        reveal_strlit("dec");
        reveal_strlit("add");
        reveal_strlit("mul");
        reveal_strlit("div");
        reveal_strlit("eq");
        reveal_strlit("lt");
        reveal_strlit("neg");
        reveal_strlit("ap");
        reveal_strlit("s");
        reveal_strlit("c");
        reveal_strlit("b");
        reveal_strlit("t");
        reveal_strlit("f");
        reveal_strlit("pwr2");
        reveal_strlit("i");
        reveal_strlit("cons");
        reveal_strlit("vec");
        reveal_strlit("car");
        reveal_strlit("cdr");
        reveal_strlit("nil");
        reveal_strlit("isnil");
    }
    if str_eq(w, "inc") {
        Some(Token::Inc)
    } else if str_eq(w, "dec") {
        Some(Token::Dec)
    } else if str_eq(w, "add") {
        Some(Token::Add)
    } else if str_eq(w, "mul") {
        Some(Token::Mul)
    } else if str_eq(w, "div") {
        Some(Token::Div)
    } else if str_eq(w, "eq") {
        Some(Token::Eq)
    } else if str_eq(w, "lt") {
        Some(Token::Lt)
    } else if str_eq(w, "neg") {
        Some(Token::Neg)
    } else if str_eq(w, "ap") {
        Some(Token::Ap)
    } else if str_eq(w, "s") {
        Some(Token::S)
    } else if str_eq(w, "c") {
        Some(Token::C)
    } else if str_eq(w, "b") {
        Some(Token::B)
    } else if str_eq(w, "t") {
        Some(Token::True)
    } else if str_eq(w, "f") {
        Some(Token::False)
    } else if str_eq(w, "pwr2") {
        Some(Token::Pwr2)
    } else if str_eq(w, "i") {
        Some(Token::I)
    } else if str_eq(w, "cons") || str_eq(w, "vec") {
        Some(Token::Cons)
    } else if str_eq(w, "car") {
        Some(Token::Head)
    } else if str_eq(w, "cdr") {
        Some(Token::Tail)
    } else if str_eq(w, "nil") {
        Some(Token::Nil)
    } else if str_eq(w, "isnil") {
        Some(Token::IsNil)
    } else {
        let n = w.unicode_len();
        if n == 0 {
            return None;
        }
        let b0 = w.get_ascii(0);
        proof {
            assert(((w@[0]) as int) < 128);
            assert(((w@[0]) as u8) as int == (w@[0]) as int);
        }
        if b0 == 58 {
            match parse_digits(w, 1, u32::MAX as u64) {
                Some(v) => Some(Token::Var(Var::Temp(v as u32))),
                None => None,
            }
        } else if b0 == 45 {
            proof {
                assert(!(w@.len() > 0 && all_digits(w@))) by {
                    assert(!is_digit_char(w@[0]));
                }
            }
            if n == 1 {
                return None;
            }
            match parse_digits(w, 1, 0x8000_0000_0000_0000u64) {
                Some(v) => {
                    let x: i64 = if v == 0x8000_0000_0000_0000u64 {
                        i64::MIN
                    } else {
                        -(v as i64)
                    };
                    Some(Token::Number(x))
                },
                None => None,
            }
        } else {
            match parse_digits(w, 0, 0x7fff_ffff_ffff_ffffu64) {
                Some(v) => {
                    proof {
                        assert(w@.skip(0) =~= w@);
                    }
                    Some(Token::Number(v as i64))
                },
                None => {
                    proof {
                        assert(w@.skip(0) =~= w@);
                    }
                    None
                },
            }
        }
    }
}

/// Tokenizes a program body, one word at a time.  `None` exactly when
/// some word is not a word of the language.
pub fn parse(text: &str) -> (r: Option<Vec<Token>>)
    ensures
        match spec_parse(text@) {
            None => r is None,
            Some(ts) => r matches Some(v) && v@ == ts,
        },
{
    if !text.is_ascii() {
        return None;
    }
    let n = text.unicode_len();
    let mut toks: Vec<Token> = Vec::new();
    let mut new_item = false;
    let mut i: usize = 0;
    proof {
        reveal_strlit(")");
        reveal_strlit("(");
        reveal_strlit(",");
        assert(text@.skip(0) =~= text@);
    }
    loop
        invariant_except_break
            spec_parse(text@) == spec_parse_words(spec_words(text@.skip(i as int)), toks@, new_item),
        invariant
            i <= n,
            n == text@.len(),
            text.is_ascii(),
        ensures
            match spec_parse(text@) {
                None => false,
                Some(ts) => toks@ == ts,
            },
        decreases n - i,
    {
        proof {
            reveal_strlit(")");
            reveal_strlit("(");
            reveal_strlit(",");
        }
        let ghost rem = text@.skip(i as int);
        let mut j: usize = i;
        while j < n && text.get_ascii(j) != 32
            invariant
                i <= j <= n,
                n == text@.len(),
                text.is_ascii(),
                forall|l: int| i <= l < j ==> !is_space_char(#[trigger] text@[l]),
            decreases n - j,
        {
            proof {
                assert(((text@[j as int]) as int) < 128);
                assert(((text@[j as int]) as u8) as int == (text@[j as int]) as int);
            }
            j = j + 1;
        }
        proof {
            assert(forall|l: int| 0 <= l < j - i ==> !is_space_char(#[trigger] rem[l]));
            lemma_first_space_shift(rem, (j - i) as nat);
            if j < n {
                assert(((text@[j as int]) as u8) as int == (text@[j as int]) as int);
                assert(rem.skip(j - i)[0] == text@[j as int]);
                assert(first_space(rem.skip(j - i)) == Some(0int));
                assert(first_space(rem) == Some(j - i));
                assert(rem.take(j - i) =~= text@.subrange(i as int, j as int));
                assert(rem.skip(j - i + 1) =~= text@.skip(j + 1));
                assert(spec_words(rem) == seq![text@.subrange(i as int, j as int)] + spec_words(
                    text@.skip(j + 1),
                ));
            } else {
                assert(rem.skip(j - i).len() == 0);
                assert(first_space(rem) is None);
                assert(spec_words(rem) == seq![rem]);
                assert(rem =~= text@.subrange(i as int, j as int));
            }
        }
        let w = text.substring_ascii(i, j);
        let ghost ws = spec_words(rem);
        let ghost acc0 = toks@;
        let ghost ni0 = new_item;
        proof {
            assert(ws[0] == w@);
            assert(ws.len() >= 1);
            if j < n {
                assert(ws.skip(1) =~= spec_words(text@.skip(j + 1)));
            } else {
                assert(ws.skip(1) =~= Seq::<Seq<char>>::empty());
            }
        }
        if str_eq(w, ")") {
            toks.push(Token::Nil);
            new_item = false;
            proof {
                assert(spec_parse_words(ws, acc0, ni0) == spec_parse_words(
                    ws.skip(1),
                    toks@,
                    new_item,
                ));
            }
        } else {
            if new_item {
                toks.push(Token::Ap);
                toks.push(Token::Ap);
                toks.push(Token::Cons);
                new_item = false;
                proof {
                    assert(toks@ =~= acc0 + seq![Token::Ap, Token::Ap, Token::Cons]);
                }
            }
            if str_eq(w, "(") || str_eq(w, ",") {
                new_item = true;
                proof {
                    assert(spec_parse_words(ws, acc0, ni0) == spec_parse_words(
                        ws.skip(1),
                        toks@,
                        new_item,
                    ));
                }
            } else {
                match word_token(w) {
                    Some(tk) => {
                        toks.push(tk);
                        proof {
                            assert(spec_parse_words(ws, acc0, ni0) == spec_parse_words(
                                ws.skip(1),
                                toks@,
                                new_item,
                            ));
                        }
                    },
                    None => {
                        proof {
                            assert(spec_parse_words(ws, acc0, ni0) is None);
                        }
                        return None;
                    },
                }
            }
        }
        if j >= n {
            proof {
                assert(spec_parse_words(ws.skip(1), toks@, new_item) == Some(toks@));
            }
            break ;
        }
        i = j + 1;
    }
    Some(toks)
}

/// Finds the first ` = ` separator at or after `from`.
fn find_assign(text: &str, from: usize) -> (r: Option<usize>)
    requires
        text.is_ascii(),
        from <= text@.len(),
    ensures
        r is None <==> first_assign(text@.skip(from as int)) is None,
        r matches Some(v) ==> first_assign(text@.skip(from as int)) == Some(v - from) && from <= v
            && v + 3 <= text@.len(),
{
    let ghost rem = text@.skip(from as int);
    let n = text.unicode_len();
    let mut i: usize = from;
    while i < n && n - i >= 3
        invariant
            from <= i <= n,
            n == text@.len(),
            text.is_ascii(),
            rem == text@.skip(from as int),
            forall|j: int|
                0 <= j < i - from ==> !(j + 3 <= rem.len() && is_space_char(#[trigger] rem[j])
                    && (rem[j + 1]) as int == 61 && is_space_char(rem[j + 2])),
        decreases n - i,
    {
        let b0 = text.get_ascii(i);
        let b1 = text.get_ascii(i + 1);
        let b2 = text.get_ascii(i + 2);
        proof {
            assert(((text@[i as int]) as u8) as int == (text@[i as int]) as int);
            assert(((text@[i + 1]) as u8) as int == (text@[i + 1]) as int);
            assert(((text@[i + 2]) as u8) as int == (text@[i + 2]) as int);
            assert(rem[i - from] == text@[i as int]);
            assert(rem[i - from + 1] == text@[i + 1]);
            assert(rem[i - from + 2] == text@[i + 2]);
        }
        if b0 == 32 && b1 == 61 && b2 == 32 {
            proof {
                lemma_first_assign_shift(rem, (i - from) as nat);
                assert(rem.skip(i - from)[0] == rem[i - from]);
                assert(rem.skip(i - from)[1] == rem[i - from + 1]);
                assert(rem.skip(i - from)[2] == rem[i - from + 2]);
                assert(first_assign(rem.skip(i - from)) == Some(0int));
            }
            return Some(i);
        }
        i = i + 1;
    }
    proof {
        lemma_first_assign_shift(rem, (i - from) as nat);
        assert(rem.skip(i - from).len() < 3);
        assert(first_assign(rem) is None);
    }
    None
}

/// Finds the first `==` separator at or after `from`.
fn find_eqeq(text: &str, from: usize) -> (r: Option<usize>)
    requires
        text.is_ascii(),
        from <= text@.len(),
    ensures
        r is None <==> first_eqeq(text@.skip(from as int)) is None,
        r matches Some(v) ==> first_eqeq(text@.skip(from as int)) == Some(v - from) && from <= v
            && v + 2 <= text@.len(),
{
    let ghost rem = text@.skip(from as int);
    let n = text.unicode_len();
    let mut i: usize = from;
    while i < n && n - i >= 2
        invariant
            from <= i <= n,
            n == text@.len(),
            text.is_ascii(),
            rem == text@.skip(from as int),
            forall|j: int|
                0 <= j < i - from ==> !(j + 2 <= rem.len() && (#[trigger] rem[j]) as int == 61
                    && (rem[j + 1]) as int == 61),
        decreases n - i,
    {
        let b0 = text.get_ascii(i);
        let b1 = text.get_ascii(i + 1);
        proof {
            assert(((text@[i as int]) as u8) as int == (text@[i as int]) as int);
            assert(((text@[i + 1]) as u8) as int == (text@[i + 1]) as int);
            assert(rem[i - from] == text@[i as int]);
            assert(rem[i - from + 1] == text@[i + 1]);
        }
        if b0 == 61 && b1 == 61 {
            proof {
                lemma_first_eqeq_shift(rem, (i - from) as nat);
                assert(rem.skip(i - from)[0] == rem[i - from]);
                assert(rem.skip(i - from)[1] == rem[i - from + 1]);
                assert(first_eqeq(rem.skip(i - from)) == Some(0int));
            }
            return Some(i);
        }
        i = i + 1;
    }
    proof {
        lemma_first_eqeq_shift(rem, (i - from) as nat);
        assert(rem.skip(i - from).len() < 2);
        assert(first_eqeq(rem) is None);
    }
    None
}

/// Whether a byte is trimmed whitespace.
fn is_trim_byte(b: u8) -> (r: bool)
    ensures
        r == (b as int == 32 || b as int == 9 || b as int == 10 || b as int == 13),
{
    b == 32 || b == 9 || b == 10 || b == 13
}

/// Strips surrounding whitespace.
fn trim_str<'a>(text: &'a str) -> (r: &'a str)
    requires
        text.is_ascii(),
    ensures
        r@ == spec_trim(text@),
        r.is_ascii(),
{
    let n = text.unicode_len();
    let mut start: usize = 0;
    while start < n && is_trim_byte(text.get_ascii(start))
        invariant
            start <= n,
            n == text@.len(),
            text.is_ascii(),
            forall|j: int| 0 <= j < start ==> is_trim_char(#[trigger] text@[j]),
        decreases n - start,
    {
        proof {
            assert(((text@[start as int]) as u8) as int == (text@[start as int]) as int);
        }
        start = start + 1;
    }
    proof {
        if start < n {
            assert(((text@[start as int]) as u8) as int == (text@[start as int]) as int);
        }
        lemma_trim_front_at(text@, start as nat);
    }
    let mut end: usize = n;
    while end > start && is_trim_byte(text.get_ascii(end - 1))
        invariant
            start <= end <= n,
            n == text@.len(),
            text.is_ascii(),
            forall|j: int| end <= j < n ==> is_trim_char(#[trigger] text@[j]),
        decreases end,
    {
        proof {
            assert(((text@[end - 1]) as u8) as int == (text@[end - 1]) as int);
        }
        end = end - 1;
    }
    proof {
        if end > start {
            assert(((text@[end - 1]) as u8) as int == (text@[end - 1]) as int);
        }
        let t = text@.skip(start as int);
        assert(forall|j: int| end - start <= j < t.len() ==> is_trim_char(#[trigger] t[j]));
        lemma_trim_back_at(t, (end - start) as nat);
        assert(t.take(end - start) =~= text@.subrange(start as int, end as int));
    }
    text.substring_ascii(start, end)
}

/// Parses one statement line `var = body`: the binding name to the left
/// of the first ` = `, the tokenized body up to a second ` = ` or the
/// end.  `None` exactly when the separator is missing, the variable is a
/// malformed temporary, or the body does not tokenize.
pub fn parse_line(text: &str) -> (r: Option<Stmt>)
    ensures
        match spec_parse_line(text@) {
            None => r is None,
            Some(p) => r matches Some(st) && var_key(st.var) == p.0 && st.code@ == p.1,
        },
{
    if !text.is_ascii() {
        return None;
    }
    let n = text.unicode_len();
    proof {
        assert(text@.skip(0) =~= text@);
    }
    let sep = match find_assign(text, 0) {
        None => {
            return None;
        },
        Some(sep) => sep,
    };
    let var_part = text.substring_ascii(0, sep);
    proof {
        assert(var_part@ =~= text@.take(sep as int));
    }
    let rest_start = sep + 3;
    let rest_end = match find_assign(text, rest_start) {
        None => n,
        Some(j) => j,
    };
    let rest = text.substring_ascii(rest_start, rest_end);
    proof {
        let rest_full = text@.skip(rest_start as int);
        match first_assign(rest_full) {
            None => {
                assert(rest@ =~= rest_full);
            },
            Some(j) => {
                assert(rest@ =~= rest_full.take(j));
            },
        }
    }
    let var: Var = if var_part.unicode_len() > 0 && var_part.get_ascii(0) == 58 {
        proof {
            assert(((var_part@[0]) as u8) as int == (var_part@[0]) as int);
        }
        match parse_digits(var_part, 1, u32::MAX as u64) {
            Some(v) => Var::Temp(v as u32),
            None => {
                return None;
            },
        }
    } else {
        proof {
            if var_part@.len() > 0 {
                assert(((var_part@[0]) as u8) as int == (var_part@[0]) as int);
            }
        }
        Var::Named(String::from_str(var_part))
    };
    match parse(rest) {
        Some(code) => Some(Stmt { var, code }),
        None => None,
    }
}

/// Parses a test line `left == right` into the two statements `expr` and
/// `expected` holding the tokenized sides (trimmed; a second `==` ends
/// the right side).
pub fn parse_test(text: &str) -> (r: Option<(Stmt, Stmt)>)
    ensures
        match spec_parse_test(text@) {
            None => r is None,
            Some(p) => r matches Some(q) && var_key(q.0.var) == VarKey::Named("expr"@)
                && q.0.code@ == p.0 && var_key(q.1.var) == VarKey::Named("expected"@) && q.1.code@
                == p.1,
        },
{
    if !text.is_ascii() {
        return None;
    }
    let n = text.unicode_len();
    proof {
        assert(text@.skip(0) =~= text@);
    }
    let e1 = match find_eqeq(text, 0) {
        None => {
            return None;
        },
        Some(e1) => e1,
    };
    let left_raw = text.substring_ascii(0, e1);
    let right_end = match find_eqeq(text, e1 + 2) {
        None => n,
        Some(j) => j,
    };
    let right_raw = text.substring_ascii(e1 + 2, right_end);
    proof {
        assert(left_raw@ =~= before_eqeq(text@));
        let rest_full = text@.skip(e1 + 2);
        match first_eqeq(rest_full) {
            None => {
                assert(right_raw@ =~= rest_full);
            },
            Some(j) => {
                assert(right_raw@ =~= rest_full.take(j));
            },
        }
        assert(after_eqeq(text@) == Some(right_raw@));
    }
    let left = trim_str(left_raw);
    let right = trim_str(right_raw);
    let a = match parse(left) {
        Some(a) => a,
        None => {
            return None;
        },
    };
    let b = match parse(right) {
        Some(b) => b,
        None => {
            return None;
        },
    };
    Some(
        (
            Stmt { var: Var::Named(String::from_str("expr")), code: a },
            Stmt { var: Var::Named(String::from_str("expected")), code: b },
        ),
    )
}

/// Parses a picture line: everything before a `==` (or the whole line),
/// trimmed and tokenized, bound to the name `picture`.
pub fn parse_picture(text: &str) -> (r: Option<Stmt>)
    ensures
        match spec_parse_picture(text@) {
            None => r is None,
            Some(ts) => r matches Some(st) && var_key(st.var) == VarKey::Named("picture"@)
                && st.code@ == ts,
        },
{
    if !text.is_ascii() {
        return None;
    }
    let n = text.unicode_len();
    proof {
        assert(text@.skip(0) =~= text@);
    }
    let left_end = match find_eqeq(text, 0) {
        None => n,
        Some(e1) => e1,
    };
    let left_raw = text.substring_ascii(0, left_end);
    proof {
        match first_eqeq(text@) {
            None => {
                assert(left_raw@ =~= text@);
            },
            Some(_) => {
                assert(left_raw@ =~= before_eqeq(text@));
            },
        }
    }
    let left = trim_str(left_raw);
    match parse(left) {
        Some(code) => Some(Stmt { var: Var::Named(String::from_str("picture")), code }),
        None => None,
    }
}

} // verus!
