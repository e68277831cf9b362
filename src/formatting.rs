use vstd::prelude::*;

verus! {

/// The lowercase hexadecimal digit for a value below sixteen.
pub open spec fn hex_digit(d: nat) -> char {
    if d < 10 {
        (d + 48) as char
    } else {
        (d + 87) as char
    }
}

/// The characters `0x` followed by the two lowercase hexadecimal digits of `b`.
pub open spec fn hex_byte(b: u8) -> Seq<char> {
    seq!['0', 'x', hex_digit(b as nat / 16), hex_digit(b as nat % 16)]
}

fn digit_str(d: u8) -> (r: &'static str)
    requires
        d < 16,
    ensures
        r@ == seq![hex_digit(d as nat)],
{
    let digits = "0123456789abcdef";
    proof {
        reveal_strlit("0123456789abcdef");
    }
    digits.substring_char(d as usize, d as usize + 1)
}

/// The bytes of `b` as `0x..` literals in order, separated by a comma and a space.
pub open spec fn raw_list(b: Seq<u8>) -> Seq<char>
    decreases b.len(),
{
    if b.len() == 0 {
        Seq::empty()
    } else if b.len() == 1 {
        hex_byte(b[0])
    } else {
        raw_list(b.drop_last()) + seq![',', ' '] + hex_byte(b.last())
    }
}

/// The decimal digits of `n`, most significant first, with no leading zero.
pub open spec fn decimal(n: nat) -> Seq<char>
    decreases n,
{
    if n < 10 {
        seq![hex_digit(n)]
    } else {
        decimal(n / 10).push(hex_digit(n % 10))
    }
}

fn push_hex_byte(out: &mut String, b: u8)
    ensures
        final(out)@ == old(out)@ + hex_byte(b),
{
    let prefix = "0x";
    proof {
        reveal_strlit("0x");
    }
    out.append(prefix);
    out.append(digit_str(b / 16));
    out.append(digit_str(b % 16));
    assert(final(out)@ =~= old(out)@ + hex_byte(b));
}

fn push_decimal(out: &mut String, n: usize)
    ensures
        final(out)@ == old(out)@ + decimal(n as nat),
    decreases n,
{
    if n >= 10 {
        push_decimal(out, n / 10);
    }
    out.append(digit_str((n % 10) as u8));
    assert(final(out)@ =~= old(out)@ + decimal(n as nat));
}

fn raw_format(vec: &Vec<u8>) -> (r: String)
    ensures
        r@ == raw_list(vec@),
{
    let mut out = String::new();
    let separator = ", ";
    proof {
        reveal_strlit(", ");
    }
    let mut i: usize = 0;
    while i < vec.len()
        invariant
            i <= vec@.len(),
            separator@ == seq![',', ' '],
            out@ == raw_list(vec@.subrange(0, i as int)),
        decreases vec@.len() - i,
    {
        proof {
            let next = vec@.subrange(0, i + 1);
            assert(next.drop_last() =~= vec@.subrange(0, i as int));
            assert(next.last() == vec@[i as int]);
        }
        if i > 0 {
            out.append(separator);
        }
        push_hex_byte(&mut out, vec[i]);
        i = i + 1;
    }
    assert(vec@.subrange(0, vec@.len() as int) =~= vec@);
    out
}

/// `list` inside the C declaration `unsigned char[] raw_hex = { .. };`.
pub open spec fn c_wrap(list: Seq<char>) -> Seq<char> {
    "unsigned char[] raw_hex = { "@ + list + " };"@
}

/// `list` inside the C++ declaration of a `std::array` of `n` bytes.
pub open spec fn cpp_wrap(n: nat, list: Seq<char>) -> Seq<char> {
    "std::array<uint8_t, "@ + decimal(n) + "> raw_hex = { "@ + list + " };"@
}

/// `list` inside the fixed-size array form `[u8: n] = [..]`.
pub open spec fn rust_wrap(n: nat, list: Seq<char>) -> Seq<char> {
    "[u8: "@ + decimal(n) + "] = ["@ + list + "]"@
}

/// A rendering of a byte vector as an array literal.
pub trait ArrayFormatter {
    spec fn rendered(b: Seq<u8>) -> Seq<char>;

    fn format(vec: &Vec<u8>) -> (r: String)
        ensures
            r@ == Self::rendered(vec@),
    ;
}

/// The bare comma-separated list.
#[derive(Debug, Clone, Copy, PartialEq, Eq, Structural)]
pub struct RawFormatter;

/// A C++ `std::array` declaration.
#[derive(Debug, Clone, Copy, PartialEq, Eq, Structural)]
pub struct CppFormatter;

/// A C array declaration.
#[derive(Debug, Clone, Copy, PartialEq, Eq, Structural)]
pub struct CFormatter;

/// A fixed-size array form with the length spelled out.
#[derive(Debug, Clone, Copy, PartialEq, Eq, Structural)]
pub struct RustFormatter;

impl ArrayFormatter for RawFormatter {
    open spec fn rendered(b: Seq<u8>) -> Seq<char> {
        raw_list(b)
    }

    fn format(vec: &Vec<u8>) -> (r: String) {
        raw_format(vec)
    }
}

impl ArrayFormatter for CppFormatter {
    open spec fn rendered(b: Seq<u8>) -> Seq<char> {
        cpp_wrap(b.len(), raw_list(b))
    }

    fn format(vec: &Vec<u8>) -> (r: String) {
        let mut out = String::new();
        out.append("std::array<uint8_t, ");
        push_decimal(&mut out, vec.len());
        out.append("> raw_hex = { ");
        out.append(raw_format(vec).as_str());
        out.append(" };");
        out
    }
}

impl ArrayFormatter for CFormatter {
    open spec fn rendered(b: Seq<u8>) -> Seq<char> {
        c_wrap(raw_list(b))
    }

    fn format(vec: &Vec<u8>) -> (r: String) {
        let mut out = String::new();
        out.append("unsigned char[] raw_hex = { ");
        out.append(raw_format(vec).as_str());
        out.append(" };");
        out
    }
}

impl ArrayFormatter for RustFormatter {
    open spec fn rendered(b: Seq<u8>) -> Seq<char> {
        rust_wrap(b.len(), raw_list(b))
    }

    fn format(vec: &Vec<u8>) -> (r: String) {
        let mut out = String::new();
        out.append("[u8: ");
        push_decimal(&mut out, vec.len());
        out.append("] = [");
        out.append(raw_format(vec).as_str());
        out.append("]");
        out
    }
}

/// The syntax an array is rendered in.
#[derive(Debug, Clone, Copy, PartialEq, Eq, Structural)]
pub enum OutputSyntax {
    Raw(RawFormatter),
    Cpp(CppFormatter),
    C(CFormatter),
    Rust(RustFormatter),
}

/// `c` with an ASCII capital letter taken to its small letter, as a code point.
pub open spec fn fold_case(c: char) -> u32 {
    if 'A' <= c <= 'Z' {
        (c as u32 + 32) as u32
    } else {
        c as u32
    }
}

/// `s` and `t` are equal once ASCII letters are compared without regard to case.
pub open spec fn same_ignoring_case(s: Seq<char>, t: Seq<char>) -> bool {
    s.len() == t.len() && forall|i: int| 0 <= i < s.len() ==> fold_case(s[i]) == fold_case(t[i])
}

/// The syntax that a token names; every token that names none selects `Raw`.
pub open spec fn syntax_for(token: Seq<char>) -> OutputSyntax {
    if same_ignoring_case(token, "cpp"@) || same_ignoring_case(token, "c++"@)
        || same_ignoring_case(token, "cxx"@) {
        OutputSyntax::Cpp(CppFormatter)
    } else if same_ignoring_case(token, "c"@) {
        OutputSyntax::C(CFormatter)
    } else if same_ignoring_case(token, "rust"@) {
        OutputSyntax::Rust(RustFormatter)
    } else {
        OutputSyntax::Raw(RawFormatter)
    }
}

/// The name under which a syntax is shown.
pub open spec fn syntax_name(syntax: OutputSyntax) -> Seq<char> {
    match syntax {
        OutputSyntax::Raw(_) => "Raw"@,
        OutputSyntax::Rust(_) => "Rust"@,
        OutputSyntax::Cpp(_) => "Cpp"@,
        OutputSyntax::C(_) => "C"@,
    }
}

/// `token` names one of the syntaxes, ignoring the case of letters.
pub open spec fn names_a_syntax(token: Seq<char>) -> bool {
    same_ignoring_case(token, "cpp"@) || same_ignoring_case(token, "c++"@)
        || same_ignoring_case(token, "cxx"@) || same_ignoring_case(token, "c"@)
        || same_ignoring_case(token, "rust"@)
}

/// The full rendering of `b` in `syntax`.
pub open spec fn rendering(b: Seq<u8>, syntax: OutputSyntax) -> Seq<char> {
    match syntax {
        OutputSyntax::Raw(_) => RawFormatter::rendered(b),
        OutputSyntax::Cpp(_) => CppFormatter::rendered(b),
        OutputSyntax::C(_) => CFormatter::rendered(b),
        OutputSyntax::Rust(_) => RustFormatter::rendered(b),
    }
}

fn fold_case_exec(c: char) -> (r: u32)
    ensures
        r == fold_case(c),
{
    if 'A' <= c && c <= 'Z' {
        c as u32 + 32
    } else {
        c as u32
    }
}

fn eq_ignore_case(s: &str, t: &str) -> (r: bool)
    ensures
        r == same_ignoring_case(s@, t@),
{
    let n = s.unicode_len();
    if n != t.unicode_len() {
        return false;
    }
    let mut i: usize = 0;
    while i < n
        invariant
            n == s@.len() == t@.len(),
            i <= n,
            forall|j: int| 0 <= j < i ==> fold_case(s@[j]) == fold_case(t@[j]),
        decreases n - i,
    {
        if fold_case_exec(s.get_char(i)) != fold_case_exec(t.get_char(i)) {
            return false;
        }
        i = i + 1;
    }
    true
}

impl Default for OutputSyntax {
    fn default() -> (r: Self)
        ensures
            r == OutputSyntax::Raw(RawFormatter),
    {
        OutputSyntax::Raw(RawFormatter)
    }
}

impl OutputSyntax {
    /// Selects the syntax that `target` names, ignoring the case of letters.
    pub fn from_string(target: &String) -> (r: Self)
        ensures
            r == syntax_for(target@),
    {
        let t = target.as_str();
        if eq_ignore_case(t, "cpp") || eq_ignore_case(t, "c++") || eq_ignore_case(t, "cxx") {
            OutputSyntax::Cpp(CppFormatter)
        } else if eq_ignore_case(t, "c") {
            OutputSyntax::C(CFormatter)
        } else if eq_ignore_case(t, "rust") {
            OutputSyntax::Rust(RustFormatter)
        } else {
            OutputSyntax::Raw(RawFormatter)
        }
    }

    /// The name of the syntax: `Raw`, `Rust`, `Cpp` or `C`.
    pub fn to_string(&self) -> (r: String)
        ensures
            r@ == syntax_name(*self),
    {
        match self {
            OutputSyntax::Raw(_) => String::from_str("Raw"),
            OutputSyntax::Rust(_) => String::from_str("Rust"),
            OutputSyntax::Cpp(_) => String::from_str("Cpp"),
            OutputSyntax::C(_) => String::from_str("C"),
        }
    }
}

/// A byte vector paired with the syntax it is to be rendered in.
#[derive(Debug)]
pub struct FormattingData {
    bytes: Vec<u8>,
    syntax: OutputSyntax,
}

impl View for FormattingData {
    type V = (Seq<u8>, OutputSyntax);

    closed spec fn view(&self) -> (Seq<u8>, OutputSyntax) {
        (self.bytes@, self.syntax)
    }
}

impl FormattingData {
    pub fn new(bytes: Vec<u8>, syntax: OutputSyntax) -> (r: Self)
        ensures
            r@ == (bytes@, syntax),
    {
        FormattingData { bytes: bytes, syntax: syntax }
    }

    /// Renders the bytes in the chosen syntax.
    pub fn write_to_string(self) -> (r: String)
        ensures
            r@ == rendering(self@.0, self@.1),
    {
        match self.syntax {
            OutputSyntax::C(_) => CFormatter::format(&self.bytes),
            OutputSyntax::Cpp(_) => CppFormatter::format(&self.bytes),
            OutputSyntax::Rust(_) => RustFormatter::format(&self.bytes),
            OutputSyntax::Raw(_) => RawFormatter::format(&self.bytes),
        }
    }
}

/// The numeric value of a string of decimal digits.
pub open spec fn decimal_value(s: Seq<char>) -> nat
    decreases s.len(),
{
    if s.len() == 0 {
        0
    } else {
        decimal_value(s.drop_last()) * 10 + ((s.last() as u32 - 48) as nat)
    }
}

/// The raw list of `b` holds, for each byte in order, `0x` and its two lowercase
/// hexadecimal digits, and between consecutive bytes a comma and a space; nothing else.
pub proof fn lemma_raw_list_layout(b: Seq<u8>)
    ensures
        b.len() == 0 ==> raw_list(b).len() == 0,
        b.len() > 0 ==> raw_list(b).len() == 6 * b.len() - 2,
        forall|i: int|
            0 <= i < b.len() ==> #[trigger] raw_list(b).subrange(6 * i, 6 * i + 4) == hex_byte(
                b[i],
            ),
        forall|i: int|
            0 <= i < b.len() - 1 ==> #[trigger] raw_list(b).subrange(6 * i + 4, 6 * i + 6)
                == seq![',', ' '],
    decreases b.len(),
{
    if b.len() > 1 {
        let prev = b.drop_last();
        lemma_raw_list_layout(prev);
        let r = raw_list(b);
        let p = raw_list(prev);
        let n = b.len();
        assert(r == p + seq![',', ' '] + hex_byte(b.last()));
        assert forall|i: int| 0 <= i < n implies #[trigger] r.subrange(6 * i, 6 * i + 4)
            == hex_byte(b[i]) by {
            if i < n - 1 {
                assert(r.subrange(6 * i, 6 * i + 4) =~= p.subrange(6 * i, 6 * i + 4));
            } else {
                assert(r.subrange(6 * i, 6 * i + 4) =~= hex_byte(b.last()));
            }
        }
        assert forall|i: int| 0 <= i < n - 1 implies #[trigger] r.subrange(6 * i + 4, 6 * i + 6)
            == seq![',', ' '] by {
            if i < n - 2 {
                assert(r.subrange(6 * i + 4, 6 * i + 6) =~= p.subrange(6 * i + 4, 6 * i + 6));
            } else {
                assert(r.subrange(6 * i + 4, 6 * i + 6) =~= seq![',', ' ']);
            }
        }
    } else if b.len() == 1 {
        assert(raw_list(b).subrange(0, 4) =~= hex_byte(b[0]));
    }
}

/// The decimal form of `n` is made of digits, has no leading zero, and reads back as `n`.
pub proof fn lemma_decimal_reads_back(n: nat)
    ensures
        decimal_value(decimal(n)) == n,
        decimal(n).len() > 0,
        n >= 10 ==> decimal(n).len() > 1,
        forall|i: int| 0 <= i < decimal(n).len() ==> '0' <= #[trigger] decimal(n)[i] <= '9',
        decimal(n).len() > 1 ==> decimal(n)[0] != '0',
    decreases n,
{
    let d = n % 10;
    let s = decimal(n);
    assert(hex_digit(d) as u32 == d + 48);
    assert(s.last() == hex_digit(d));
    if n < 10 {
        assert(s.drop_last() =~= Seq::<char>::empty());
        assert(decimal_value(s) == decimal_value(s.drop_last()) * 10 + d);
    } else {
        let h = n / 10;
        lemma_decimal_reads_back(h);
        assert(s.drop_last() =~= decimal(h));
        assert(decimal_value(s) == h * 10 + d);
        assert(s[0] == decimal(h)[0]);
        if h < 10 {
            assert(hex_digit(h) as u32 == h + 48);
            assert('0' as u32 == 48);
            assert(decimal(h)[0] == hex_digit(h));
        }
    }
}

/// Each syntax but `Raw` is the raw list wrapped in its declaration, with the byte
/// count in decimal where the declaration holds one.
pub proof fn lemma_wrapped_forms(b: Seq<u8>)
    ensures
        rendering(b, OutputSyntax::Raw(RawFormatter)) == raw_list(b),
        rendering(b, OutputSyntax::C(CFormatter)) == "unsigned char[] raw_hex = { "@ + rendering(
            b,
            OutputSyntax::Raw(RawFormatter),
        ) + " };"@,
        rendering(b, OutputSyntax::Cpp(CppFormatter)) == "std::array<uint8_t, "@ + decimal(
            b.len(),
        ) + "> raw_hex = { "@ + rendering(b, OutputSyntax::Raw(RawFormatter)) + " };"@,
        rendering(b, OutputSyntax::Rust(RustFormatter)) == "[u8: "@ + decimal(b.len()) + "] = ["@
            + rendering(b, OutputSyntax::Raw(RawFormatter)) + "]"@,
{
}

proof fn lemma_same_ignoring_case_trans(s: Seq<char>, t: Seq<char>, u: Seq<char>)
    requires
        same_ignoring_case(s, t),
    ensures
        same_ignoring_case(s, u) == same_ignoring_case(t, u),
{
    if same_ignoring_case(s, u) {
        assert forall|i: int| 0 <= i < t.len() implies fold_case(t[i]) == fold_case(u[i]) by {
            assert(fold_case(s[i]) == fold_case(t[i]));
        }
    }
    if same_ignoring_case(t, u) {
        assert forall|i: int| 0 <= i < s.len() implies fold_case(s[i]) == fold_case(u[i]) by {
            assert(fold_case(s[i]) == fold_case(t[i]));
        }
    }
}

/// Two tokens that differ only in the case of letters select the same syntax.
pub proof fn lemma_syntax_ignores_case(s: Seq<char>, t: Seq<char>)
    requires
        same_ignoring_case(s, t),
    ensures
        syntax_for(s) == syntax_for(t),
        names_a_syntax(s) == names_a_syntax(t),
{
    lemma_same_ignoring_case_trans(s, t, "cpp"@);
    lemma_same_ignoring_case_trans(s, t, "c++"@);
    lemma_same_ignoring_case_trans(s, t, "cxx"@);
    lemma_same_ignoring_case_trans(s, t, "c"@);
    lemma_same_ignoring_case_trans(s, t, "rust"@);
}

/// A token that names no syntax selects `Raw`.
pub proof fn lemma_unknown_token_is_raw(token: Seq<char>)
    requires
        !names_a_syntax(token),
    ensures
        syntax_for(token) == OutputSyntax::Raw(RawFormatter),
{
}

} // verus!
