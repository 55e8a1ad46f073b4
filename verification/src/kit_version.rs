//! The kit version identifier and its canonical textual grammar:
//!
//! ```text
//! <epoch>.<major>.<minor>.<patch>[dev][:<commit>[@<branch>]]
//! ```
//!
//! The four numeric components are decimal digit runs (16-bit epoch, 8-bit
//! major/minor/patch); `dev` is a literal suffix; the optional build metadata
//! is a `:`-introduced commit of 5 to 40 lowercase hexadecimal characters,
//! optionally followed by `@` and a non-empty branch of word characters.
//! The whole string must match exactly; anything else is rejected.

use vstd::prelude::*;

verus! {

// ---------------------------------------------------------------------------
// Character classes of the grammar
// ---------------------------------------------------------------------------

/// A decimal digit.
pub open spec fn is_digit_char(c: char) -> bool {
    '0' <= c && c <= '9'
}

/// A lowercase hexadecimal digit, as accepted in a commit hash.
pub open spec fn is_lower_hex_char(c: char) -> bool {
    is_digit_char(c) || ('a' <= c && c <= 'f')
}

/// A word character, as accepted in a branch name.
pub open spec fn is_word_char(c: char) -> bool {
    is_digit_char(c) || ('a' <= c && c <= 'z') || ('A' <= c && c <= 'Z') || c == '_'
}

// ---------------------------------------------------------------------------
// Maximal runs of a character class
// ---------------------------------------------------------------------------

/// End of the maximal run of decimal digits starting at `i`.
pub open spec fn digit_end(s: Seq<char>, i: int) -> int
    decreases s.len() - i,
{
    if 0 <= i < s.len() && is_digit_char(s[i]) {
        digit_end(s, i + 1)
    } else {
        i
    }
}

/// End of the maximal run of lowercase hex digits starting at `i`.
pub open spec fn hex_end(s: Seq<char>, i: int) -> int
    decreases s.len() - i,
{
    if 0 <= i < s.len() && is_lower_hex_char(s[i]) {
        hex_end(s, i + 1)
    } else {
        i
    }
}

/// End of the maximal run of word characters starting at `i`.
pub open spec fn word_end(s: Seq<char>, i: int) -> int
    decreases s.len() - i,
{
    if 0 <= i < s.len() && is_word_char(s[i]) {
        word_end(s, i + 1)
    } else {
        i
    }
}

/// The digit run starting at `i` ends within the string, covers only digits,
/// and stops at the first non-digit.
pub proof fn lemma_digit_end(s: Seq<char>, i: int)
    requires
        0 <= i <= s.len(),
    ensures
        i <= digit_end(s, i) <= s.len(),
        forall|j: int| i <= j < digit_end(s, i) ==> is_digit_char(#[trigger] s[j]),
        digit_end(s, i) < s.len() ==> !is_digit_char(s[digit_end(s, i)]),
    decreases s.len() - i,
{
    if i < s.len() && is_digit_char(s[i]) {
        lemma_digit_end(s, i + 1);
    }
}

/// A run known by its content pins down `digit_end`.
pub proof fn lemma_digit_end_is(s: Seq<char>, i: int, j: int)
    requires
        0 <= i <= j <= s.len(),
        forall|k: int| i <= k < j ==> is_digit_char(#[trigger] s[k]),
        j == s.len() || !is_digit_char(s[j]),
    ensures
        digit_end(s, i) == j,
    decreases j - i,
{
    if i < j {
        lemma_digit_end_is(s, i + 1, j);
    }
}

/// The hex run starting at `i` ends within the string, covers only lowercase
/// hex digits, and stops at the first other character.
pub proof fn lemma_hex_end(s: Seq<char>, i: int)
    requires
        0 <= i <= s.len(),
    ensures
        i <= hex_end(s, i) <= s.len(),
        forall|j: int| i <= j < hex_end(s, i) ==> is_lower_hex_char(#[trigger] s[j]),
        hex_end(s, i) < s.len() ==> !is_lower_hex_char(s[hex_end(s, i)]),
    decreases s.len() - i,
{
    if i < s.len() && is_lower_hex_char(s[i]) {
        lemma_hex_end(s, i + 1);
    }
}

/// A run known by its content pins down `hex_end`.
pub proof fn lemma_hex_end_is(s: Seq<char>, i: int, j: int)
    requires
        0 <= i <= j <= s.len(),
        forall|k: int| i <= k < j ==> is_lower_hex_char(#[trigger] s[k]),
        j == s.len() || !is_lower_hex_char(s[j]),
    ensures
        hex_end(s, i) == j,
    decreases j - i,
{
    if i < j {
        lemma_hex_end_is(s, i + 1, j);
    }
}

/// The word run starting at `i` ends within the string, covers only word
/// characters, and stops at the first other character.
pub proof fn lemma_word_end(s: Seq<char>, i: int)
    requires
        0 <= i <= s.len(),
    ensures
        i <= word_end(s, i) <= s.len(),
        forall|j: int| i <= j < word_end(s, i) ==> is_word_char(#[trigger] s[j]),
        word_end(s, i) < s.len() ==> !is_word_char(s[word_end(s, i)]),
    decreases s.len() - i,
{
    if i < s.len() && is_word_char(s[i]) {
        lemma_word_end(s, i + 1);
    }
}

/// A run known by its content pins down `word_end`.
pub proof fn lemma_word_end_is(s: Seq<char>, i: int, j: int)
    requires
        0 <= i <= j <= s.len(),
        forall|k: int| i <= k < j ==> is_word_char(#[trigger] s[k]),
        j == s.len() || !is_word_char(s[j]),
    ensures
        word_end(s, i) == j,
    decreases j - i,
{
    if i < j {
        lemma_word_end_is(s, i + 1, j);
    }
}

// ---------------------------------------------------------------------------
// Decimal numbers: value of a digit run, canonical digits of a value
// ---------------------------------------------------------------------------

/// Numeric value of a decimal digit character.
pub open spec fn digit_val(c: char) -> int {
    c as u32 - '0' as u32
}

/// Value of a run of decimal digits, most significant first.
pub open spec fn num_val(s: Seq<char>) -> int
    decreases s.len(),
{
    if s.len() == 0 {
        0
    } else {
        num_val(s.drop_last()) * 10 + digit_val(s.last())
    }
}

/// The decimal digit character for a value below ten.
pub open spec fn digit_char_of(d: int) -> char {
    if d == 0 { '0' }
    else if d == 1 { '1' }
    else if d == 2 { '2' }
    else if d == 3 { '3' }
    else if d == 4 { '4' }
    else if d == 5 { '5' }
    else if d == 6 { '6' }
    else if d == 7 { '7' }
    else if d == 8 { '8' }
    else { '9' }
}

/// The canonical decimal digits of a non-negative value: no leading zero
/// except for the value zero itself.
pub open spec fn dec_digits(n: int) -> Seq<char>
    decreases n,
{
    if n < 10 {
        seq![digit_char_of(n)]
    } else {
        dec_digits(n / 10).push(digit_char_of(n % 10))
    }
}

/// `digit_char_of` yields a digit character whose value is the one given.
pub proof fn lemma_digit_char_of(d: int)
    requires
        0 <= d < 10,
    ensures
        is_digit_char(digit_char_of(d)),
        digit_val(digit_char_of(d)) == d,
{
    assert('0' as u32 == 48);
    assert('1' as u32 == 49);
    assert('2' as u32 == 50);
    assert('3' as u32 == 51);
    assert('4' as u32 == 52);
    assert('5' as u32 == 53);
    assert('6' as u32 == 54);
    assert('7' as u32 == 55);
    assert('8' as u32 == 56);
    assert('9' as u32 == 57);
}

/// The canonical digits of `n` are a non-empty digit run whose value is `n`.
pub proof fn lemma_dec_digits(n: int)
    requires
        n >= 0,
    ensures
        dec_digits(n).len() >= 1,
        forall|j: int| 0 <= j < dec_digits(n).len() ==> is_digit_char(#[trigger] dec_digits(n)[j]),
        num_val(dec_digits(n)) == n,
    decreases n,
{
    if n < 10 {
        lemma_digit_char_of(n);
        assert(dec_digits(n) =~= seq![digit_char_of(n)]);
        assert(dec_digits(n).drop_last() =~= Seq::<char>::empty());
        assert(num_val(Seq::<char>::empty()) == 0);
        assert(dec_digits(n).last() == digit_char_of(n));
        assert(num_val(dec_digits(n)) == num_val(dec_digits(n).drop_last()) * 10 + digit_val(dec_digits(n).last()));
    } else {
        lemma_dec_digits(n / 10);
        lemma_digit_char_of(n % 10);
        let d = dec_digits(n / 10);
        let whole = dec_digits(n);
        assert(whole =~= d.push(digit_char_of(n % 10)));
        assert(whole.drop_last() =~= d);
        assert(num_val(whole) == num_val(d) * 10 + digit_val(digit_char_of(n % 10)));
    }
}

/// The value of a digit run is non-negative and does not shrink when more
/// digits follow: the value of a prefix bounds the value of the whole from
/// below.
pub proof fn lemma_num_val_prefix(s: Seq<char>, m: int)
    requires
        0 <= m <= s.len(),
        forall|j: int| 0 <= j < s.len() ==> is_digit_char(#[trigger] s[j]),
    ensures
        num_val(s) >= num_val(s.take(m)) >= 0,
    decreases s.len(),
{
    if s.len() == 0 {
        assert(s.take(m) =~= s);
    } else if m == s.len() {
        assert(s.take(m) =~= s);
        lemma_num_val_prefix(s.drop_last(), s.len() - 1);
        assert(s.drop_last().take(s.len() - 1) =~= s.drop_last());
    } else {
        lemma_num_val_prefix(s.drop_last(), m);
        assert(s.drop_last().take(m) =~= s.take(m));
    }
}

// ---------------------------------------------------------------------------
// Data model
// ---------------------------------------------------------------------------

/// Build metadata attached to a version: a commit hash and, optionally, a
/// branch name.
///
/// A branch is only meaningful together with a commit; the grammar cannot
/// produce a branch without one, since `@` is reached only after `:commit`.
/// The type mirrors that: the branch is the optional part inside a value
/// whose commit is always present.
#[derive(Clone, Debug, PartialEq)]
pub struct BuildInfo {
    pub commit: String,
    pub branch: Option<String>,
}

/// A kit version: four numeric components, a development flag, and optional
/// build metadata.
#[derive(Clone, Debug, PartialEq)]
pub struct KitVersion {
    pub epoch: u16,
    pub major: u8,
    pub minor: u8,
    pub patch: u8,
    pub dev: bool,
    pub build_info: Option<BuildInfo>,
}

/// Mathematical model of `BuildInfo`.
#[verifier::ext_equal]
pub ghost struct BuildInfoModel {
    pub commit: Seq<char>,
    pub branch: Option<Seq<char>>,
}

/// Mathematical model of `KitVersion`.
#[verifier::ext_equal]
pub ghost struct KitVersionModel {
    pub epoch: u16,
    pub major: u8,
    pub minor: u8,
    pub patch: u8,
    pub dev: bool,
    pub build_info: Option<BuildInfoModel>,
}

impl View for BuildInfo {
    type V = BuildInfoModel;

    open spec fn view(&self) -> BuildInfoModel {
        BuildInfoModel {
            commit: self.commit@,
            branch: match self.branch {
                Option::None => Option::None,
                Option::Some(b) => Option::Some(b@),
            },
        }
    }
}

impl View for KitVersion {
    type V = KitVersionModel;

    open spec fn view(&self) -> KitVersionModel {
        KitVersionModel {
            epoch: self.epoch,
            major: self.major,
            minor: self.minor,
            patch: self.patch,
            dev: self.dev,
            build_info: match self.build_info {
                Option::None => Option::None,
                Option::Some(b) => Option::Some(b@),
            },
        }
    }
}

/// The numeric component a parse found out of range.
#[derive(Clone, Copy, Debug, PartialEq, Eq, Structural)]
pub enum VersionComponent {
    Epoch,
    Major,
    Minor,
    Patch,
}

/// Why a version string was rejected: either it does not match the grammar
/// at all, or one numeric component matched but exceeds its declared width.
#[derive(Clone, Copy, Debug, PartialEq, Eq, Structural)]
pub enum VersionParseError {
    GrammarMismatch,
    ComponentOverflow(VersionComponent),
}

// ---------------------------------------------------------------------------
// The grammar, as one deterministic specification
// ---------------------------------------------------------------------------

/// A value a successful parse can produce: the commit is 5 to 40 lowercase
/// hex characters, and a branch, when present, is a non-empty run of word
/// characters.  The numeric widths are carried by the field types.
pub open spec fn version_wf(v: KitVersionModel) -> bool {
    match v.build_info {
        Option::None => true,
        Option::Some(b) => {
            &&& 5 <= b.commit.len() <= 40
            &&& forall|i: int| 0 <= i < b.commit.len() ==> is_lower_hex_char(#[trigger] b.commit[i])
            &&& match b.branch {
                Option::None => true,
                Option::Some(br) => {
                    &&& br.len() >= 1
                    &&& forall|i: int| 0 <= i < br.len() ==> is_word_char(#[trigger] br[i])
                },
            }
        },
    }
}

/// Numeric width checks and assembly of the parsed value, once the string is
/// known to match the grammar.  Overflow is reported per component, epoch
/// first.
pub open spec fn spec_parse_finish(
    s: Seq<char>,
    e1: int,
    e2: int,
    e3: int,
    e4: int,
    dev: bool,
    build_info: Option<BuildInfoModel>,
) -> Result<KitVersionModel, VersionParseError> {
    let epoch = num_val(s.subrange(0, e1));
    let major = num_val(s.subrange(e1 + 1, e2));
    let minor = num_val(s.subrange(e2 + 1, e3));
    let patch = num_val(s.subrange(e3 + 1, e4));
    if epoch > 0xFFFF {
        Result::Err(VersionParseError::ComponentOverflow(VersionComponent::Epoch))
    } else if major > 0xFF {
        Result::Err(VersionParseError::ComponentOverflow(VersionComponent::Major))
    } else if minor > 0xFF {
        Result::Err(VersionParseError::ComponentOverflow(VersionComponent::Minor))
    } else if patch > 0xFF {
        Result::Err(VersionParseError::ComponentOverflow(VersionComponent::Patch))
    } else {
        Result::Ok(KitVersionModel {
            epoch: epoch as u16,
            major: major as u8,
            minor: minor as u8,
            patch: patch as u8,
            dev,
            build_info,
        })
    }
}

/// What parsing a version string yields: the unique reading of the grammar
/// `<epoch>.<major>.<minor>.<patch>[dev][:<commit>[@<branch>]]`, anchored at
/// both ends, or the error that rejects the string.
pub open spec fn spec_parse(s: Seq<char>) -> Result<KitVersionModel, VersionParseError> {
    let e1 = digit_end(s, 0);
    let e2 = digit_end(s, e1 + 1);
    let e3 = digit_end(s, e2 + 1);
    let e4 = digit_end(s, e3 + 1);
    if !(0 < e1 < s.len() && s[e1] == '.') {
        Result::Err(VersionParseError::GrammarMismatch)
    } else if !(e1 + 1 < e2 < s.len() && s[e2] == '.') {
        Result::Err(VersionParseError::GrammarMismatch)
    } else if !(e2 + 1 < e3 < s.len() && s[e3] == '.') {
        Result::Err(VersionParseError::GrammarMismatch)
    } else if !(e3 + 1 < e4) {
        Result::Err(VersionParseError::GrammarMismatch)
    } else {
        let dev = e4 + 3 <= s.len() && s.subrange(e4, e4 + 3) == seq!['d', 'e', 'v'];
        let p = if dev { e4 + 3 } else { e4 };
        if p == s.len() {
            spec_parse_finish(s, e1, e2, e3, e4, dev, Option::None)
        } else if s[p] == ':' {
            let h = hex_end(s, p + 1);
            if !(5 <= h - (p + 1) <= 40) {
                Result::Err(VersionParseError::GrammarMismatch)
            } else if h == s.len() {
                spec_parse_finish(s, e1, e2, e3, e4, dev, Option::Some(BuildInfoModel {
                    commit: s.subrange(p + 1, h),
                    branch: Option::None,
                }))
            } else if s[h] == '@' {
                let w = word_end(s, h + 1);
                if h + 1 < w && w == s.len() {
                    spec_parse_finish(s, e1, e2, e3, e4, dev, Option::Some(BuildInfoModel {
                        commit: s.subrange(p + 1, h),
                        branch: Option::Some(s.subrange(h + 1, w)),
                    }))
                } else {
                    Result::Err(VersionParseError::GrammarMismatch)
                }
            } else {
                Result::Err(VersionParseError::GrammarMismatch)
            }
        } else {
            Result::Err(VersionParseError::GrammarMismatch)
        }
    }
}

/// The canonical string of build metadata: the commit, then `@` and the
/// branch when one is present.
pub open spec fn spec_format_build(b: BuildInfoModel) -> Seq<char> {
    b.commit + match b.branch {
        Option::None => Seq::<char>::empty(),
        Option::Some(br) => seq!['@'] + br,
    }
}

/// The numeric head of the canonical string: the four components' digits,
/// joined by dots.
pub open spec fn spec_format_nums(v: KitVersionModel) -> Seq<char> {
    dec_digits(v.epoch as int) + seq!['.'] + dec_digits(v.major as int) + seq!['.']
        + dec_digits(v.minor as int) + seq!['.'] + dec_digits(v.patch as int)
}

/// The tail of the canonical string: `dev` only when the flag is set, `:`
/// and the build metadata only when present.
pub open spec fn spec_format_tail(v: KitVersionModel) -> Seq<char> {
    (if v.dev { seq!['d', 'e', 'v'] } else { Seq::<char>::empty() })
        + match v.build_info {
            Option::None => Seq::<char>::empty(),
            Option::Some(b) => seq![':'] + spec_format_build(b),
        }
}

/// The canonical string of a version: digits joined by dots, `dev` only when
/// the flag is set, `:` and the build metadata only when present.
pub open spec fn spec_format(v: KitVersionModel) -> Seq<char> {
    spec_format_nums(v) + spec_format_tail(v)
}

// ---------------------------------------------------------------------------
// Executable scanning and number handling
// ---------------------------------------------------------------------------

/// Index of the first non-digit at or after `i`.
fn scan_digits(s: &str, i: usize, len: usize) -> (r: usize)
    requires
        i <= len,
        len == s@.len(),
    ensures
        r as int == digit_end(s@, i as int),
        i <= r <= len,
    decreases len - i,
{
    proof {
        lemma_digit_end(s@, i as int);
    }
    if i < len {
        let c = s.get_char(i);
        if '0' <= c && c <= '9' {
            return scan_digits(s, i + 1, len);
        }
    }
    i
}

/// Index of the first character at or after `i` that is no lowercase hex
/// digit.
fn scan_hex(s: &str, i: usize, len: usize) -> (r: usize)
    requires
        i <= len,
        len == s@.len(),
    ensures
        r as int == hex_end(s@, i as int),
        i <= r <= len,
    decreases len - i,
{
    proof {
        lemma_hex_end(s@, i as int);
    }
    if i < len {
        let c = s.get_char(i);
        if ('0' <= c && c <= '9') || ('a' <= c && c <= 'f') {
            return scan_hex(s, i + 1, len);
        }
    }
    i
}

/// Index of the first non-word character at or after `i`.
fn scan_word(s: &str, i: usize, len: usize) -> (r: usize)
    requires
        i <= len,
        len == s@.len(),
    ensures
        r as int == word_end(s@, i as int),
        i <= r <= len,
    decreases len - i,
{
    proof {
        lemma_word_end(s@, i as int);
    }
    if i < len {
        let c = s.get_char(i);
        if ('0' <= c && c <= '9') || ('a' <= c && c <= 'z') || ('A' <= c && c <= 'Z') || c == '_' {
            return scan_word(s, i + 1, len);
        }
    }
    i
}

/// Value of the digit run `s[start..end]`, unless it exceeds `max`.
fn parse_component(s: &str, start: usize, end: usize, max: u32) -> (r: Option<u32>)
    requires
        start <= end <= s@.len(),
        forall|j: int| start <= j < end ==> is_digit_char(#[trigger] s@[j]),
        max <= 0xFFFF,
    ensures
        match r {
            Option::Some(v) => v <= max && v as int == num_val(
                s@.subrange(start as int, end as int),
            ),
            Option::None => num_val(s@.subrange(start as int, end as int)) > max,
        },
{
    let mut acc: u32 = 0;
    let mut i: usize = start;
    while i < end
        invariant
            start <= i <= end <= s@.len(),
            forall|j: int| start <= j < end ==> is_digit_char(#[trigger] s@[j]),
            max <= 0xFFFF,
            acc <= max,
            acc as int == num_val(s@.subrange(start as int, i as int)),
        decreases end - i,
    {
        let c = s.get_char(i);
        proof {
            assert('0' as u32 == 48);
            assert(is_digit_char(s@[i as int]));
        }
        let d = c as u32 - 48;
        let next = acc * 10 + d;
        proof {
            let pre = s@.subrange(start as int, i as int);
            let ext = s@.subrange(start as int, i + 1 as int);
            assert(ext.drop_last() =~= pre);
            assert(ext.last() == s@[i as int]);
            assert(num_val(ext) == num_val(pre) * 10 + digit_val(s@[i as int]));
        }
        if next > max {
            proof {
                let whole = s@.subrange(start as int, end as int);
                lemma_num_val_prefix(whole, i + 1 - start as int);
                assert(whole.take(i + 1 - start as int) =~= s@.subrange(start as int, i + 1 as int));
            }
            return Option::None;
        }
        acc = next;
        i = i + 1;
    }
    proof {
        assert(s@.subrange(start as int, i as int) =~= s@.subrange(start as int, end as int));
    }
    Option::Some(acc)
}

/// The one-character string of a decimal digit value.
fn digit_str(d: u32) -> (r: &'static str)
    requires
        d < 10,
    ensures
        r@ == seq![digit_char_of(d as int)],
{
    proof {
        reveal_strlit("0");
        reveal_strlit("1");
        reveal_strlit("2");
        reveal_strlit("3");
        reveal_strlit("4");
        reveal_strlit("5");
        reveal_strlit("6");
        reveal_strlit("7");
        reveal_strlit("8");
        reveal_strlit("9");
    }
    let r = match d {
        0 => "0",
        1 => "1",
        2 => "2",
        3 => "3",
        4 => "4",
        5 => "5",
        6 => "6",
        7 => "7",
        8 => "8",
        _ => "9",
    };
    proof {
        assert(r@ =~= seq![digit_char_of(d as int)]);
    }
    r
}

/// The canonical decimal digits of `n`, as a string.
fn u32_dec_str(n: u32) -> (r: String)
    ensures
        r@ == dec_digits(n as int),
    decreases n,
{
    if n < 10 {
        String::from_str(digit_str(n))
    } else {
        let mut s = u32_dec_str(n / 10);
        s.append(digit_str(n % 10));
        proof {
            assert(s@ =~= dec_digits((n / 10) as int).push(digit_char_of((n % 10) as int)));
        }
        s
    }
}

impl BuildInfo {
    /// The canonical string of this build metadata: `commit` or
    /// `commit@branch`.
    pub fn to_string(&self) -> (r: String)
        ensures
            r@ == spec_format_build(self@),
    {
        let mut out = String::from_str(self.commit.as_str());
        match &self.branch {
            Option::None => {},
            Option::Some(br) => {
                proof {
                    reveal_strlit("@");
                }
                out.append("@");
                out.append(br.as_str());
            },
        }
        proof {
            assert(out@ =~= spec_format_build(self@));
        }
        out
    }
}

impl KitVersion {
    /// The canonical string of this version, the exact inverse of a
    /// successful parse: digits joined by dots, `dev` only when the flag is
    /// set, `:` and the build metadata only when present.
    pub fn to_string(&self) -> (r: String)
        ensures
            r@ == spec_format(self@),
    {
        proof {
            reveal_strlit(".");
            reveal_strlit("dev");
            reveal_strlit(":");
        }
        let mut out = u32_dec_str(self.epoch as u32);
        out.append(".");
        let major = u32_dec_str(self.major as u32);
        out.append(major.as_str());
        out.append(".");
        let minor = u32_dec_str(self.minor as u32);
        out.append(minor.as_str());
        out.append(".");
        let patch = u32_dec_str(self.patch as u32);
        out.append(patch.as_str());
        if self.dev {
            out.append("dev");
        }
        match &self.build_info {
            Option::None => {},
            Option::Some(b) => {
                out.append(":");
                let build = b.to_string();
                out.append(build.as_str());
            },
        }
        proof {
            assert(out@ =~= spec_format(self@));
        }
        out
    }
}

/// Model of an optional build metadata value.
pub open spec fn opt_build_model(o: Option<BuildInfo>) -> Option<BuildInfoModel> {
    match o {
        Option::None => Option::None,
        Option::Some(b) => Option::Some(b@),
    }
}

/// Width checks and assembly, once the grammar has matched: each component's
/// digit run is converted, epoch first, and the first component out of its
/// range is reported.
fn finish_parse(
    s: &str,
    e1: usize,
    e2: usize,
    e3: usize,
    e4: usize,
    dev: bool,
    build_info: Option<BuildInfo>,
) -> (r: Result<KitVersion, VersionParseError>)
    requires
        0 < e1,
        e1 + 1 < e2,
        e2 + 1 < e3,
        e3 + 1 < e4 <= s@.len(),
        forall|j: int| 0 <= j < e1 ==> is_digit_char(#[trigger] s@[j]),
        forall|j: int| e1 + 1 <= j < e2 ==> is_digit_char(#[trigger] s@[j]),
        forall|j: int| e2 + 1 <= j < e3 ==> is_digit_char(#[trigger] s@[j]),
        forall|j: int| e3 + 1 <= j < e4 ==> is_digit_char(#[trigger] s@[j]),
    ensures
        match r {
            Result::Ok(v) => {
                &&& spec_parse_finish(s@, e1 as int, e2 as int, e3 as int, e4 as int, dev,
                    opt_build_model(build_info)) == Result::<KitVersionModel, VersionParseError>::Ok(v@)
                &&& v.dev == dev
            },
            Result::Err(e) => spec_parse_finish(s@, e1 as int, e2 as int, e3 as int, e4 as int,
                dev, opt_build_model(build_info)) == Result::<KitVersionModel, VersionParseError>::Err(e),
        },
{
    let epoch = match parse_component(s, 0, e1, 0xFFFF) {
        Option::Some(v) => v,
        Option::None => {
            return Result::Err(VersionParseError::ComponentOverflow(VersionComponent::Epoch));
        },
    };
    let major = match parse_component(s, e1 + 1, e2, 0xFF) {
        Option::Some(v) => v,
        Option::None => {
            return Result::Err(VersionParseError::ComponentOverflow(VersionComponent::Major));
        },
    };
    let minor = match parse_component(s, e2 + 1, e3, 0xFF) {
        Option::Some(v) => v,
        Option::None => {
            return Result::Err(VersionParseError::ComponentOverflow(VersionComponent::Minor));
        },
    };
    let patch = match parse_component(s, e3 + 1, e4, 0xFF) {
        Option::Some(v) => v,
        Option::None => {
            return Result::Err(VersionParseError::ComponentOverflow(VersionComponent::Patch));
        },
    };
    let v = KitVersion {
        epoch: epoch as u16,
        major: major as u8,
        minor: minor as u8,
        patch: patch as u8,
        dev,
        build_info,
    };
    proof {
        assert(spec_parse_finish(s@, e1 as int, e2 as int, e3 as int, e4 as int, dev,
            opt_build_model(build_info)) matches Result::Ok(m) && m =~= v@);
    }
    Result::Ok(v)
}

impl KitVersion {
    /// Parse a version string.
    ///
    /// The string must match the grammar
    /// `<epoch>.<major>.<minor>.<patch>[dev][:<commit>[@<branch>]]`
    /// exactly, anchored at both ends; anything else is rejected with
    /// `GrammarMismatch`.  A component that matches but exceeds its width
    /// (16 bits for the epoch, 8 for the rest) is rejected with
    /// `ComponentOverflow`, naming the component, epoch checked first.
    pub fn try_from(val: &str) -> (r: Result<KitVersion, VersionParseError>)
        ensures
            match r {
                Result::Ok(v) => spec_parse(val@) == Result::<KitVersionModel,
                    VersionParseError>::Ok(v@),
                Result::Err(e) => spec_parse(val@) == Result::<KitVersionModel,
                    VersionParseError>::Err(e),
            },
    {
        let len = val.unicode_len();
        let e1 = scan_digits(val, 0, len);
        if e1 == 0 || e1 >= len || val.get_char(e1) != '.' {
            return Result::Err(VersionParseError::GrammarMismatch);
        }
        let e2 = scan_digits(val, e1 + 1, len);
        if e2 <= e1 + 1 || e2 >= len || val.get_char(e2) != '.' {
            return Result::Err(VersionParseError::GrammarMismatch);
        }
        let e3 = scan_digits(val, e2 + 1, len);
        if e3 <= e2 + 1 || e3 >= len || val.get_char(e3) != '.' {
            return Result::Err(VersionParseError::GrammarMismatch);
        }
        let e4 = scan_digits(val, e3 + 1, len);
        if e4 <= e3 + 1 {
            return Result::Err(VersionParseError::GrammarMismatch);
        }
        proof {
            lemma_digit_end(val@, 0);
            lemma_digit_end(val@, e1 + 1 as int);
            lemma_digit_end(val@, e2 + 1 as int);
            lemma_digit_end(val@, e3 + 1 as int);
        }
        let dev = if len - e4 >= 3 {
            val.get_char(e4) == 'd' && val.get_char(e4 + 1) == 'e' && val.get_char(e4 + 2) == 'v'
        } else {
            false
        };
        proof {
            if e4 + 3 <= len {
                let sub = val@.subrange(e4 as int, e4 + 3 as int);
                assert(sub[0] == val@[e4 as int]);
                assert(sub[1] == val@[e4 + 1 as int]);
                assert(sub[2] == val@[e4 + 2 as int]);
                if dev {
                    assert(sub =~= seq!['d', 'e', 'v']);
                }
                if sub == seq!['d', 'e', 'v'] {
                    assert(sub[0] == 'd' && sub[1] == 'e' && sub[2] == 'v');
                }
            }
            assert(dev == (e4 + 3 <= val@.len() && val@.subrange(e4 as int, e4 + 3 as int)
                == seq!['d', 'e', 'v']));
        }
        let p = if dev {
            e4 + 3
        } else {
            e4
        };
        if p == len {
            return finish_parse(val, e1, e2, e3, e4, dev, Option::None);
        }
        if val.get_char(p) != ':' {
            return Result::Err(VersionParseError::GrammarMismatch);
        }
        let h = scan_hex(val, p + 1, len);
        let clen = h - (p + 1);
        if clen < 5 || clen > 40 {
            return Result::Err(VersionParseError::GrammarMismatch);
        }
        let commit = String::from_str(val.substring_char(p + 1, h));
        if h == len {
            let bi = Option::Some(BuildInfo { commit, branch: Option::None });
            return finish_parse(val, e1, e2, e3, e4, dev, bi);
        }
        if val.get_char(h) != '@' {
            return Result::Err(VersionParseError::GrammarMismatch);
        }
        let w = scan_word(val, h + 1, len);
        if w <= h + 1 || w != len {
            return Result::Err(VersionParseError::GrammarMismatch);
        }
        let branch = String::from_str(val.substring_char(h + 1, w));
        let bi = Option::Some(BuildInfo { commit, branch: Option::Some(branch) });
        finish_parse(val, e1, e2, e3, e4, dev, bi)
    }
}

// ---------------------------------------------------------------------------
// Laws
// ---------------------------------------------------------------------------

/// Every value a successful parse produces is well formed: its commit is 5
/// to 40 lowercase hex characters and its branch, when present, a non-empty
/// run of word characters.
pub proof fn lemma_parse_wf(s: Seq<char>)
    ensures
        spec_parse(s) matches Result::Ok(m) ==> version_wf(m),
{
    let e1 = digit_end(s, 0);
    let e2 = digit_end(s, e1 + 1);
    let e3 = digit_end(s, e2 + 1);
    let e4 = digit_end(s, e3 + 1);
    if 0 < e1 < s.len() && s[e1] == '.' && e1 + 1 < e2 < s.len() && s[e2] == '.'
        && e2 + 1 < e3 < s.len() && s[e3] == '.' && e3 + 1 < e4 {
        lemma_digit_end(s, 0);
        lemma_digit_end(s, e1 + 1);
        lemma_digit_end(s, e2 + 1);
        lemma_digit_end(s, e3 + 1);
        let dev = e4 + 3 <= s.len() && s.subrange(e4, e4 + 3) == seq!['d', 'e', 'v'];
        let p = if dev { e4 + 3 } else { e4 };
        if p == s.len() {
        } else if p < s.len() && s[p] == ':' {
            lemma_hex_end(s, p + 1);
            let h = hex_end(s, p + 1);
            let commit = s.subrange(p + 1, h);
            assert forall|i: int| 0 <= i < commit.len() implies is_lower_hex_char(
                #[trigger] commit[i],
            ) by {
                assert(commit[i] == s[p + 1 + i]);
            }
            if h < s.len() && s[h] == '@' {
                lemma_word_end(s, h + 1);
                let w = word_end(s, h + 1);
                if h + 1 < w && w == s.len() {
                    let br = s.subrange(h + 1, w);
                    assert forall|i: int| 0 <= i < br.len() implies is_word_char(
                        #[trigger] br[i],
                    ) by {
                        assert(br[i] == s[h + 1 + i]);
                    }
                }
            }
        }
    }
}

/// Layout of the numeric head inside the canonical string: where the digit
/// runs and the dots sit, and that the digit scans stop exactly at them.
proof fn lemma_format_nums_layout(v: KitVersionModel, s: Seq<char>, a1: int, a2: int, a3: int, a4: int)
    requires
        s == spec_format(v),
        a1 == dec_digits(v.epoch as int).len(),
        a2 == a1 + 1 + dec_digits(v.major as int).len(),
        a3 == a2 + 1 + dec_digits(v.minor as int).len(),
        a4 == a3 + 1 + dec_digits(v.patch as int).len(),
    ensures
        0 < a1 && a1 + 1 < a2 && a2 + 1 < a3 && a3 + 1 < a4 <= s.len(),
        s.len() == a4 + spec_format_tail(v).len(),
        s[a1] == '.' && s[a2] == '.' && s[a3] == '.',
        s.subrange(0, a1) == dec_digits(v.epoch as int),
        s.subrange(a1 + 1, a2) == dec_digits(v.major as int),
        s.subrange(a2 + 1, a3) == dec_digits(v.minor as int),
        s.subrange(a3 + 1, a4) == dec_digits(v.patch as int),
        s.subrange(a4, s.len() as int) == spec_format_tail(v),
        digit_end(s, 0) == a1,
        digit_end(s, a1 + 1) == a2,
        digit_end(s, a2 + 1) == a3,
        digit_end(s, a3 + 1) == a4,
{
    let d1 = dec_digits(v.epoch as int);
    let d2 = dec_digits(v.major as int);
    let d3 = dec_digits(v.minor as int);
    let d4 = dec_digits(v.patch as int);
    lemma_dec_digits(v.epoch as int);
    lemma_dec_digits(v.major as int);
    lemma_dec_digits(v.minor as int);
    lemma_dec_digits(v.patch as int);
    let tail = spec_format_tail(v);
    assert(s.subrange(0, a1) =~= d1);
    assert(s.subrange(a1 + 1, a2) =~= d2);
    assert(s.subrange(a2 + 1, a3) =~= d3);
    assert(s.subrange(a3 + 1, a4) =~= d4);
    assert(s.subrange(a4, s.len() as int) =~= tail);
    assert(s[a1] == '.' && s[a2] == '.' && s[a3] == '.');
    assert(!is_digit_char('.'));
    // The first character of the tail, if any, is `d`, `:` or `@`-free text:
    // never a digit.
    assert(a4 < s.len() ==> !is_digit_char(s[a4])) by {
        if a4 < s.len() {
            assert(s[a4] == tail[0]);
            if v.dev {
                assert(tail[0] == 'd');
            } else {
                match v.build_info {
                    Option::None => {
                        assert(false);
                    },
                    Option::Some(b) => {
                        assert(tail[0] == ':');
                    },
                }
            }
        }
    }
    assert forall|j: int| 0 <= j < a1 implies is_digit_char(#[trigger] s[j]) by {
        assert(s[j] == s.subrange(0, a1)[j]);
    }
    assert forall|j: int| a1 + 1 <= j < a2 implies is_digit_char(#[trigger] s[j]) by {
        assert(s[j] == s.subrange(a1 + 1, a2)[j - (a1 + 1)]);
    }
    assert forall|j: int| a2 + 1 <= j < a3 implies is_digit_char(#[trigger] s[j]) by {
        assert(s[j] == s.subrange(a2 + 1, a3)[j - (a2 + 1)]);
    }
    assert forall|j: int| a3 + 1 <= j < a4 implies is_digit_char(#[trigger] s[j]) by {
        assert(s[j] == s.subrange(a3 + 1, a4)[j - (a3 + 1)]);
    }
    lemma_digit_end_is(s, 0, a1);
    lemma_digit_end_is(s, a1 + 1, a2);
    lemma_digit_end_is(s, a2 + 1, a3);
    lemma_digit_end_is(s, a3 + 1, a4);
}

/// Layout of the tail inside the canonical string: the `dev` marker is
/// present exactly when the flag is set, and the build metadata is scanned
/// back exactly.
proof fn lemma_format_tail_layout(v: KitVersionModel, s: Seq<char>, a4: int)
    requires
        version_wf(v),
        0 <= a4 <= s.len(),
        s.len() == a4 + spec_format_tail(v).len(),
        s.subrange(a4, s.len() as int) == spec_format_tail(v),
    ensures
        v.dev == (a4 + 3 <= s.len() && s.subrange(a4, a4 + 3) == seq!['d', 'e', 'v']),
        ({
            let p = if v.dev { a4 + 3 } else { a4 };
            match v.build_info {
                Option::None => p == s.len(),
                Option::Some(b) => {
                    &&& p < s.len() && s[p] == ':'
                    &&& hex_end(s, p + 1) == p + 1 + b.commit.len()
                    &&& s.subrange(p + 1, p + 1 + b.commit.len() as int) == b.commit
                    &&& ({
                        let h = p + 1 + b.commit.len() as int;
                        match b.branch {
                            Option::None => h == s.len(),
                            Option::Some(br) => {
                                &&& h < s.len() && s[h] == '@'
                                &&& word_end(s, h + 1) == s.len()
                                &&& h + 1 < s.len()
                                &&& s.subrange(h + 1, s.len() as int) == br
                            },
                        }
                    })
                },
            }
        }),
{
    let tail = spec_format_tail(v);
    assert forall|j: int| a4 <= j < s.len() implies s[j] == tail[j - a4] by {
        assert(s.subrange(a4, s.len() as int)[j - a4] == s[j]);
    }
    let devpart: Seq<char> = if v.dev { seq!['d', 'e', 'v'] } else { Seq::<char>::empty() };
    let bpart: Seq<char> = match v.build_info {
        Option::None => Seq::<char>::empty(),
        Option::Some(b) => seq![':'] + spec_format_build(b),
    };
    assert(tail == devpart + bpart);
    let p = if v.dev { a4 + 3 } else { a4 };
    // The `dev` marker is read back exactly.
    if v.dev {
        assert(s[a4] == 'd' && s[a4 + 1] == 'e' && s[a4 + 2] == 'v');
        assert(s.subrange(a4, a4 + 3) =~= seq!['d', 'e', 'v']);
    } else {
        if a4 + 3 <= s.len() && s.subrange(a4, a4 + 3) == seq!['d', 'e', 'v'] {
            assert(s.subrange(a4, a4 + 3)[0] == 'd');
            assert(s[a4] == 'd');
            match v.build_info {
                Option::None => {
                    assert(false);
                },
                Option::Some(b) => {
                    assert(tail[0] == ':');
                    assert(false);
                },
            }
        }
    }
    // The build metadata is read back exactly.
    match v.build_info {
        Option::None => {
            assert(p == s.len());
        },
        Option::Some(b) => {
            assert(s[p] == ':');
            let cl = b.commit.len() as int;
            let h = p + 1 + cl;
            assert forall|j: int| p + 1 <= j < h implies #[trigger] s[j] == b.commit[j - (p
                + 1)] by {
                assert(tail[j - a4] == bpart[j - a4 - devpart.len()]);
            }
            assert(s.subrange(p + 1, h) =~= b.commit);
            assert forall|j: int| p + 1 <= j < h implies is_lower_hex_char(#[trigger] s[j]) by {}
            match b.branch {
                Option::None => {
                    assert(h == s.len());
                    lemma_hex_end_is(s, p + 1, h);
                },
                Option::Some(br) => {
                    assert(s[h] == '@');
                    assert(!is_lower_hex_char('@'));
                    lemma_hex_end_is(s, p + 1, h);
                    assert forall|j: int| h + 1 <= j < s.len() implies #[trigger] s[j] == br[j
                        - (h + 1)] by {
                        assert(tail[j - a4] == bpart[j - a4 - devpart.len()]);
                    }
                    assert(s.subrange(h + 1, s.len() as int) =~= br);
                    assert forall|j: int| h + 1 <= j < s.len() implies is_word_char(
                        #[trigger] s[j],
                    ) by {}
                    lemma_word_end_is(s, h + 1, s.len() as int);
                },
            }
        },
    }
}

/// Formatting a well-formed version and parsing the result gives the value
/// back: the format operation is the exact inverse of a successful parse.
#[verifier::rlimit(100)]
pub proof fn lemma_format_parse(v: KitVersionModel)
    requires
        version_wf(v),
    ensures
        spec_parse(spec_format(v)) == Result::<KitVersionModel, VersionParseError>::Ok(v),
{
    let s = spec_format(v);
    let d1 = dec_digits(v.epoch as int);
    let d2 = dec_digits(v.major as int);
    let d3 = dec_digits(v.minor as int);
    let d4 = dec_digits(v.patch as int);
    lemma_dec_digits(v.epoch as int);
    lemma_dec_digits(v.major as int);
    lemma_dec_digits(v.minor as int);
    lemma_dec_digits(v.patch as int);
    let a1 = d1.len() as int;
    let a2 = a1 + 1 + d2.len();
    let a3 = a2 + 1 + d3.len();
    let a4 = a3 + 1 + d4.len();
    lemma_format_nums_layout(v, s, a1, a2, a3, a4);
    lemma_format_tail_layout(v, s, a4);
    match spec_parse(s) {
        Result::Ok(m) => {
            assert(m =~= v);
        },
        Result::Err(_) => {
            assert(false);
        },
    }
}

/// Round-trip: for every value `v` a successful parse can produce,
/// parsing the canonical string of `v` gives `v` back.
pub proof fn lemma_parse_format_roundtrip(s: Seq<char>, m: KitVersionModel)
    requires
        spec_parse(s) == Result::<KitVersionModel, VersionParseError>::Ok(m),
    ensures
        spec_parse(spec_format(m)) == Result::<KitVersionModel, VersionParseError>::Ok(m),
{
    lemma_parse_wf(s);
    lemma_format_parse(m);
}

} // verus!
