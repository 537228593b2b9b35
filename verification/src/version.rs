//! Semantic versions as plain values.
//!
//! A [`Version`] holds the five parts of a semantic version: the three
//! numeric components and the pre-release and build-metadata identifier
//! lists. Parsing from text is delegated to the `semver` crate behind one
//! trusted wrapper; everything else — the precedence order, equality, and
//! rendering back to canonical text — is defined and verified here.
//!
//! Precedence follows the semantic-versioning rules: versions compare by
//! major, minor and patch, then a pre-release sorts before the plain release,
//! and pre-release lists compare lexicographically with numeric identifiers
//! before alphanumeric ones. Build metadata is ignored by the order, exactly
//! as in the `semver` crate this library parses with.

use vstd::prelude::*;

use crate::fail::{ErrorDetails, VoltaError, VoltaFail, Fallible};

verus! {

/// One pre-release or build-metadata identifier.
#[derive(Clone, Debug)]
pub enum Identifier {
    /// An identifier that is solely numbers.
    Numeric(u64),
    /// An identifier with letters and numbers.
    AlphaNumeric(String),
}

/// The mathematical value of an [`Identifier`].
pub ghost enum IdentView {
    Numeric(nat),
    AlphaNumeric(Seq<char>),
}

impl View for Identifier {
    type V = IdentView;

    open spec fn view(&self) -> IdentView {
        match self {
            Identifier::Numeric(n) => IdentView::Numeric(*n as nat),
            Identifier::AlphaNumeric(s) => IdentView::AlphaNumeric(s@),
        }
    }
}

/// An immutable value representing a semantic version.
#[derive(Clone, Debug)]
pub struct Version {
    /// The major version, incremented on incompatible changes.
    pub major: u64,
    /// The minor version, incremented on backwards-compatible additions.
    pub minor: u64,
    /// The patch version, incremented on backwards-compatible fixes.
    pub patch: u64,
    /// The pre-release identifiers, if any.
    pub pre: Vec<Identifier>,
    /// The build metadata, ignored when determining precedence.
    pub build: Vec<Identifier>,
}

/// The mathematical value of a [`Version`].
pub ghost struct VersionView {
    pub major: nat,
    pub minor: nat,
    pub patch: nat,
    pub pre: Seq<IdentView>,
    pub build: Seq<IdentView>,
}

impl View for Version {
    type V = VersionView;

    open spec fn view(&self) -> VersionView {
        VersionView {
            major: self.major as nat,
            minor: self.minor as nat,
            patch: self.patch as nat,
            pre: self.pre@.map_values(|i: Identifier| i@),
            build: self.build@.map_values(|i: Identifier| i@),
        }
    }
}

// ----------------------------------------------------------------------------
// The precedence order.
// ----------------------------------------------------------------------------

/// Characters ordered by their Unicode scalar value.
pub open spec fn char_lt(a: char, b: char) -> bool {
    (a as u32) < (b as u32)
}

/// Lexicographic order on character sequences; a strict prefix sorts first.
pub open spec fn chars_lt(a: Seq<char>, b: Seq<char>) -> bool
    decreases a.len(),
{
    if b.len() == 0 {
        false
    } else if a.len() == 0 {
        true
    } else if char_lt(a[0], b[0]) {
        true
    } else if char_lt(b[0], a[0]) {
        false
    } else {
        chars_lt(a.drop_first(), b.drop_first())
    }
}

/// Order on single identifiers: numeric identifiers sort by value and before
/// any alphanumeric identifier; alphanumeric identifiers sort lexically.
pub open spec fn ident_lt(a: IdentView, b: IdentView) -> bool {
    match (a, b) {
        (IdentView::Numeric(x), IdentView::Numeric(y)) => x < y,
        (IdentView::Numeric(_), IdentView::AlphaNumeric(_)) => true,
        (IdentView::AlphaNumeric(_), IdentView::Numeric(_)) => false,
        (IdentView::AlphaNumeric(x), IdentView::AlphaNumeric(y)) => chars_lt(x, y),
    }
}

/// Lexicographic order on identifier lists; a strict prefix sorts first.
pub open spec fn idents_lt(a: Seq<IdentView>, b: Seq<IdentView>) -> bool
    decreases a.len(),
{
    if b.len() == 0 {
        false
    } else if a.len() == 0 {
        true
    } else if ident_lt(a[0], b[0]) {
        true
    } else if ident_lt(b[0], a[0]) {
        false
    } else {
        idents_lt(a.drop_first(), b.drop_first())
    }
}

/// Order on pre-release lists: a pre-release sorts before the plain release
/// (an empty list), and two pre-releases compare lexicographically.
pub open spec fn pre_lt(a: Seq<IdentView>, b: Seq<IdentView>) -> bool {
    if a.len() == 0 {
        false
    } else if b.len() == 0 {
        true
    } else {
        idents_lt(a, b)
    }
}

/// The strict precedence order on versions. Build metadata is ignored.
pub open spec fn version_lt(a: VersionView, b: VersionView) -> bool {
    if a.major != b.major {
        a.major < b.major
    } else if a.minor != b.minor {
        a.minor < b.minor
    } else if a.patch != b.patch {
        a.patch < b.patch
    } else {
        pre_lt(a.pre, b.pre)
    }
}

/// Precedence equality on versions: equal in every part the order looks at.
pub open spec fn version_eq(a: VersionView, b: VersionView) -> bool {
    a.major == b.major && a.minor == b.minor && a.patch == b.patch && a.pre == b.pre
}

// ----------------------------------------------------------------------------
// The order is a strict total order (up to `version_eq`).
// ----------------------------------------------------------------------------

proof fn lemma_char_conn(a: char, b: char)
    requires
        !char_lt(a, b),
        !char_lt(b, a),
    ensures
        a == b,
{
    vstd::utf8::char_u32_cast(a, a as u32);
    vstd::utf8::char_u32_cast(b, b as u32);
}

proof fn lemma_chars_lt_asym(a: Seq<char>, b: Seq<char>)
    requires
        chars_lt(a, b),
    ensures
        !chars_lt(b, a),
    decreases a.len(),
{
    if b.len() == 0 {
    } else if a.len() == 0 {
    } else if char_lt(a[0], b[0]) {
    } else if char_lt(b[0], a[0]) {
    } else {
        lemma_chars_lt_asym(a.drop_first(), b.drop_first());
    }
}

proof fn lemma_chars_lt_conn(a: Seq<char>, b: Seq<char>)
    requires
        !chars_lt(a, b),
        !chars_lt(b, a),
    ensures
        a == b,
    decreases a.len(),
{
    if a.len() == 0 {
        assert(b.len() == 0);
        assert(a =~= b);
    } else {
        assert(b.len() != 0);
        lemma_char_conn(a[0], b[0]);
        lemma_chars_lt_conn(a.drop_first(), b.drop_first());
        assert(a =~= b) by {
            assert(a.len() == b.len());
            assert forall|i: int| 0 <= i < a.len() implies a[i] == b[i] by {
                if i > 0 {
                    assert(a.drop_first()[i - 1] == b.drop_first()[i - 1]);
                }
            }
        }
    }
}

proof fn lemma_chars_lt_trans(a: Seq<char>, b: Seq<char>, c: Seq<char>)
    requires
        chars_lt(a, b),
        chars_lt(b, c),
    ensures
        chars_lt(a, c),
    decreases a.len(),
{
    assert(b.len() != 0 && c.len() != 0);
    if a.len() == 0 {
    } else {
        if char_lt(a[0], b[0]) {
            if !char_lt(b[0], c[0]) && !char_lt(c[0], b[0]) {
                lemma_char_conn(b[0], c[0]);
            }
        } else if char_lt(b[0], a[0]) {
        } else {
            lemma_char_conn(a[0], b[0]);
            if !char_lt(a[0], c[0]) && !char_lt(c[0], a[0]) {
                lemma_chars_lt_trans(a.drop_first(), b.drop_first(), c.drop_first());
            }
        }
    }
}

proof fn lemma_ident_lt_asym(a: IdentView, b: IdentView)
    requires
        ident_lt(a, b),
    ensures
        !ident_lt(b, a),
{
    match (a, b) {
        (IdentView::AlphaNumeric(x), IdentView::AlphaNumeric(y)) => {
            lemma_chars_lt_asym(x, y);
        },
        _ => {},
    }
}

proof fn lemma_ident_lt_conn(a: IdentView, b: IdentView)
    requires
        !ident_lt(a, b),
        !ident_lt(b, a),
    ensures
        a == b,
{
    match (a, b) {
        (IdentView::AlphaNumeric(x), IdentView::AlphaNumeric(y)) => {
            lemma_chars_lt_conn(x, y);
        },
        _ => {},
    }
}

proof fn lemma_ident_lt_trans(a: IdentView, b: IdentView, c: IdentView)
    requires
        ident_lt(a, b),
        ident_lt(b, c),
    ensures
        ident_lt(a, c),
{
    match (a, b, c) {
        (
            IdentView::AlphaNumeric(x),
            IdentView::AlphaNumeric(y),
            IdentView::AlphaNumeric(z),
        ) => {
            lemma_chars_lt_trans(x, y, z);
        },
        _ => {},
    }
}

proof fn lemma_idents_lt_asym(a: Seq<IdentView>, b: Seq<IdentView>)
    requires
        idents_lt(a, b),
    ensures
        !idents_lt(b, a),
    decreases a.len(),
{
    if b.len() == 0 {
    } else if a.len() == 0 {
    } else if ident_lt(a[0], b[0]) {
        lemma_ident_lt_asym(a[0], b[0]);
    } else if ident_lt(b[0], a[0]) {
    } else {
        lemma_idents_lt_asym(a.drop_first(), b.drop_first());
    }
}

proof fn lemma_idents_lt_conn(a: Seq<IdentView>, b: Seq<IdentView>)
    requires
        !idents_lt(a, b),
        !idents_lt(b, a),
    ensures
        a == b,
    decreases a.len(),
{
    if a.len() == 0 {
        assert(b.len() == 0);
        assert(a =~= b);
    } else {
        assert(b.len() != 0);
        lemma_ident_lt_conn(a[0], b[0]);
        lemma_idents_lt_conn(a.drop_first(), b.drop_first());
        assert(a =~= b) by {
            assert(a.len() == b.len());
            assert forall|i: int| 0 <= i < a.len() implies a[i] == b[i] by {
                if i > 0 {
                    assert(a.drop_first()[i - 1] == b.drop_first()[i - 1]);
                }
            }
        }
    }
}

proof fn lemma_idents_lt_trans(a: Seq<IdentView>, b: Seq<IdentView>, c: Seq<IdentView>)
    requires
        idents_lt(a, b),
        idents_lt(b, c),
    ensures
        idents_lt(a, c),
    decreases a.len(),
{
    assert(b.len() != 0 && c.len() != 0);
    if a.len() == 0 {
    } else {
        if ident_lt(a[0], b[0]) {
            if ident_lt(b[0], c[0]) {
                lemma_ident_lt_trans(a[0], b[0], c[0]);
            } else if !ident_lt(c[0], b[0]) {
                lemma_ident_lt_conn(b[0], c[0]);
            } else {
                lemma_ident_lt_asym(b[0], c[0]);
            }
        } else if ident_lt(b[0], a[0]) {
        } else {
            lemma_ident_lt_conn(a[0], b[0]);
            if !ident_lt(a[0], c[0]) && !ident_lt(c[0], a[0]) {
                lemma_idents_lt_trans(a.drop_first(), b.drop_first(), c.drop_first());
            }
        }
    }
}

/// Law: the precedence order never holds in both directions.
pub proof fn lemma_version_lt_asym(a: VersionView, b: VersionView)
    requires
        version_lt(a, b),
    ensures
        !version_lt(b, a),
{
    if a.major == b.major && a.minor == b.minor && a.patch == b.patch {
        if a.pre.len() != 0 && b.pre.len() != 0 {
            lemma_idents_lt_asym(a.pre, b.pre);
        }
    }
}

/// Law: two versions the precedence order cannot tell apart are equal in
/// every part the order looks at (they may differ in build metadata only).
pub proof fn lemma_version_lt_conn(a: VersionView, b: VersionView)
    requires
        !version_lt(a, b),
        !version_lt(b, a),
    ensures
        version_eq(a, b),
{
    if a.pre.len() != 0 && b.pre.len() != 0 {
        lemma_idents_lt_conn(a.pre, b.pre);
    } else {
        assert(a.pre.len() == 0 && b.pre.len() == 0);
        assert(a.pre =~= b.pre);
    }
}

/// Law: the precedence order is transitive.
pub proof fn lemma_version_lt_trans(a: VersionView, b: VersionView, c: VersionView)
    requires
        version_lt(a, b),
        version_lt(b, c),
    ensures
        version_lt(a, c),
{
    if a.major == c.major && a.minor == c.minor && a.patch == c.patch {
        if a.pre.len() != 0 && b.pre.len() != 0 && c.pre.len() != 0 {
            lemma_idents_lt_trans(a.pre, b.pre, c.pre);
        }
    }
}

// ----------------------------------------------------------------------------
// Executable comparison.
// ----------------------------------------------------------------------------

/// Decides the lexicographic character order on two strings.
fn chars_lt_exec(a: &str, b: &str) -> (r: bool)
    ensures
        r == chars_lt(a@, b@),
{
    let alen = a.unicode_len();
    let blen = b.unicode_len();
    let mut i: usize = 0;
    proof {
        assert(a@.skip(0) =~= a@);
        assert(b@.skip(0) =~= b@);
    }
    while i < alen && i < blen
        invariant
            i <= alen,
            i <= blen,
            alen == a@.len(),
            blen == b@.len(),
            chars_lt(a@, b@) == chars_lt(a@.skip(i as int), b@.skip(i as int)),
        decreases alen - i,
    {
        let ca = a.get_char(i);
        let cb = b.get_char(i);
        if (ca as u32) < (cb as u32) {
            return true;
        }
        if (cb as u32) < (ca as u32) {
            return false;
        }
        proof {
            lemma_char_conn(ca, cb);
            assert(a@.skip(i as int).drop_first() =~= a@.skip(i as int + 1));
            assert(b@.skip(i as int).drop_first() =~= b@.skip(i as int + 1));
        }
        i = i + 1;
    }
    proof {
        if i == blen {
            assert(b@.skip(i as int).len() == 0);
        } else {
            assert(a@.skip(i as int).len() == 0);
            assert(b@.skip(i as int).len() != 0);
        }
    }
    i == alen && i < blen
}

/// Decides the identifier order.
fn ident_lt_exec(a: &Identifier, b: &Identifier) -> (r: bool)
    ensures
        r == ident_lt(a@, b@),
{
    match (a, b) {
        (Identifier::Numeric(x), Identifier::Numeric(y)) => *x < *y,
        (Identifier::Numeric(_), Identifier::AlphaNumeric(_)) => true,
        (Identifier::AlphaNumeric(_), Identifier::Numeric(_)) => false,
        (Identifier::AlphaNumeric(x), Identifier::AlphaNumeric(y)) => {
            chars_lt_exec(x.as_str(), y.as_str())
        },
    }
}

/// Decides the lexicographic order on identifier lists.
fn idents_lt_exec(a: &Vec<Identifier>, b: &Vec<Identifier>) -> (r: bool)
    ensures
        r == idents_lt(
            a@.map_values(|x: Identifier| x@),
            b@.map_values(|x: Identifier| x@),
        ),
{
    let ghost av = a@.map_values(|x: Identifier| x@);
    let ghost bv = b@.map_values(|x: Identifier| x@);
    let mut i: usize = 0;
    proof {
        assert(av.skip(0) =~= av);
        assert(bv.skip(0) =~= bv);
    }
    while i < a.len() && i < b.len()
        invariant
            i <= a.len(),
            i <= b.len(),
            av == a@.map_values(|x: Identifier| x@),
            bv == b@.map_values(|x: Identifier| x@),
            av.len() == a@.len(),
            bv.len() == b@.len(),
            idents_lt(av, bv) == idents_lt(av.skip(i as int), bv.skip(i as int)),
        decreases a.len() - i,
    {
        if ident_lt_exec(&a[i], &b[i]) {
            return true;
        }
        if ident_lt_exec(&b[i], &a[i]) {
            return false;
        }
        proof {
            lemma_ident_lt_conn(av[i as int], bv[i as int]);
            assert(av.skip(i as int).drop_first() =~= av.skip(i as int + 1));
            assert(bv.skip(i as int).drop_first() =~= bv.skip(i as int + 1));
        }
        i = i + 1;
    }
    proof {
        if i == b.len() {
            assert(bv.skip(i as int).len() == 0);
        } else {
            assert(av.skip(i as int).len() == 0);
            assert(bv.skip(i as int).len() != 0);
        }
    }
    i == a.len() && i < b.len()
}

// ----------------------------------------------------------------------------
// Rendering to canonical text.
// ----------------------------------------------------------------------------

/// The character for one decimal digit.
pub open spec fn dec_digit_char(d: nat) -> char {
    if d == 0 {
        '0'
    } else if d == 1 {
        '1'
    } else if d == 2 {
        '2'
    } else if d == 3 {
        '3'
    } else if d == 4 {
        '4'
    } else if d == 5 {
        '5'
    } else if d == 6 {
        '6'
    } else if d == 7 {
        '7'
    } else if d == 8 {
        '8'
    } else {
        '9'
    }
}

/// The decimal rendering of a number, most significant digit first.
pub open spec fn dec_chars(n: nat) -> Seq<char>
    decreases n,
{
    if n < 10 {
        seq![dec_digit_char(n)]
    } else {
        dec_chars(n / 10).push(dec_digit_char(n % 10))
    }
}

/// The canonical text of one identifier.
pub open spec fn ident_chars(i: IdentView) -> Seq<char> {
    match i {
        IdentView::Numeric(n) => dec_chars(n),
        IdentView::AlphaNumeric(s) => s,
    }
}

/// The canonical text of an identifier list: identifiers joined by dots.
pub open spec fn idents_text(s: Seq<IdentView>) -> Seq<char>
    decreases s.len(),
{
    if s.len() == 0 {
        Seq::empty()
    } else if s.len() == 1 {
        ident_chars(s[0])
    } else {
        ident_chars(s[0]) + seq!['.'] + idents_text(s.drop_first())
    }
}

/// The canonical text of a version:
/// `major.minor.patch`, then `-` and the pre-release identifiers if any,
/// then `+` and the build identifiers if any.
pub open spec fn version_chars(v: VersionView) -> Seq<char> {
    dec_chars(v.major) + seq!['.'] + dec_chars(v.minor) + seq!['.'] + dec_chars(v.patch) + (
    if v.pre.len() > 0 {
        seq!['-'] + idents_text(v.pre)
    } else {
        Seq::empty()
    }) + (
    if v.build.len() > 0 {
        seq!['+'] + idents_text(v.build)
    } else {
        Seq::empty()
    })
}

proof fn lemma_idents_text_snoc(s: Seq<IdentView>, x: IdentView)
    ensures
        idents_text(s.push(x)) == (
        if s.len() == 0 {
            ident_chars(x)
        } else {
            idents_text(s) + seq!['.'] + ident_chars(x)
        }),
    decreases s.len(),
{
    let sp = s.push(x);
    if s.len() == 0 {
        assert(sp[0] == x);
    } else {
        assert(sp.drop_first() =~= s.drop_first().push(x));
        assert(sp[0] == s[0]);
        lemma_idents_text_snoc(s.drop_first(), x);
        if s.len() == 1 {
            assert(idents_text(sp) =~= idents_text(s) + seq!['.'] + ident_chars(x));
        } else {
            assert(idents_text(sp) =~= idents_text(s) + seq!['.'] + ident_chars(x));
        }
    }
}

/// One decimal digit as a borrowed string.
fn digit_str(d: u64) -> (r: &'static str)
    requires
        d < 10,
    ensures
        r@ == seq![dec_digit_char(d as nat)],
{
    proof {
        reveal_strlit("0");
        reveal_strlit("1");
        reveal_strlit("2");
        reveal_strlit("3");
        reveal_strlit("4");
        reveal_strlit("5");
        reveal_strlit("6");
        reveal_strlit("7");
        reveal_strlit("8");
        reveal_strlit("9");
    }
    let r = match d {
        0 => "0",
        1 => "1",
        2 => "2",
        3 => "3",
        4 => "4",
        5 => "5",
        6 => "6",
        7 => "7",
        8 => "8",
        _ => "9",
    };
    proof {
        assert(r@ =~= seq![dec_digit_char(d as nat)]);
    }
    r
}

/// Appends the decimal rendering of `n`.
fn push_decimal(out: &mut String, n: u64)
    ensures
        final(out)@ == old(out)@ + dec_chars(n as nat),
    decreases n,
{
    if n >= 10 {
        push_decimal(out, n / 10);
    }
    let d = digit_str(n % 10);
    out.append(d);
    proof {
        if n < 10 {
            assert(out@ =~= old(out)@ + dec_chars(n as nat));
        } else {
            assert((n / 10) as nat == (n as nat) / 10);
            assert((n % 10) as nat == (n as nat) % 10);
            assert(out@ =~= old(out)@ + dec_chars(n as nat));
        }
    }
}

/// Appends the canonical text of one identifier.
fn push_ident(out: &mut String, id: &Identifier)
    ensures
        final(out)@ == old(out)@ + ident_chars(id@),
{
    match id {
        Identifier::Numeric(n) => push_decimal(out, *n),
        Identifier::AlphaNumeric(s) => out.append(s.as_str()),
    }
}

/// Appends the identifiers joined by dots.
fn push_idents(out: &mut String, ids: &Vec<Identifier>)
    ensures
        final(out)@ == old(out)@ + idents_text(ids@.map_values(|x: Identifier| x@)),
{
    let ghost v = ids@.map_values(|x: Identifier| x@);
    let ghost base = out@;
    proof {
        reveal_strlit(".");
        assert(v.take(0) =~= Seq::<IdentView>::empty());
        assert(out@ =~= base + idents_text(v.take(0)));
    }
    let mut i: usize = 0;
    while i < ids.len()
        invariant
            i <= ids.len(),
            v == ids@.map_values(|x: Identifier| x@),
            v.len() == ids@.len(),
            base == old(out)@,
            out@ == base + idents_text(v.take(i as int)),
            "."@ == seq!['.'],
        decreases ids.len() - i,
    {
        if i > 0 {
            out.append(".");
        }
        push_ident(out, &ids[i]);
        proof {
            lemma_idents_text_snoc(v.take(i as int), v[i as int]);
            assert(v.take(i as int).push(v[i as int]) =~= v.take(i as int + 1));
            assert(out@ =~= base + idents_text(v.take(i as int + 1)));
        }
        i = i + 1;
    }
    proof {
        assert(v.take(ids@.len() as int) =~= v);
    }
}

// ----------------------------------------------------------------------------
// Parsing, through the `semver` crate.
// ----------------------------------------------------------------------------

/// What parsing a text as a semantic version yields: the parsed value, or
/// the message explaining why the text does not conform to the grammar.
pub ghost enum ParseOutcome {
    Parsed(VersionView),
    Rejected(Seq<char>),
}

/// The outcome of parsing a text as a semantic version. The outcome is a
/// function of the text alone; what it is on a given text, only the parser
/// decides.
pub uninterp spec fn parse_spec(text: Seq<char>) -> ParseOutcome;

/// Relies on `semver::Version::parse`: it parses a semantic version into its
/// five parts, or reports a grammar error; the outcome depends on the text
/// alone.
#[verifier::external_body]
fn parse_version_text(s: &str) -> (r: Result<Version, String>)
    ensures
        (match r {
            Ok(v) => parse_spec(s@) == ParseOutcome::Parsed(v@),
            Err(m) => parse_spec(s@) == ParseOutcome::Rejected(m@),
        }),
{
    let conv = |i: semver::Identifier| match i {
        semver::Identifier::Numeric(n) => Identifier::Numeric(n),
        semver::Identifier::AlphaNumeric(a) => Identifier::AlphaNumeric(a),
    };
    match semver::Version::parse(s) {
        Ok(v) => Ok(Version {
            major: v.major,
            minor: v.minor,
            patch: v.patch,
            pre: v.pre.into_iter().map(conv).collect(),
            build: v.build.into_iter().map(conv).collect(),
        }),
        Err(e) => Err(e.to_string()),
    }
}

impl Version {
    /// Parses a text as a semantic version; a text that does not conform to
    /// the grammar is rejected with a version-parse failure carrying the
    /// grammar error as its message.
    pub fn parse(text: &str) -> (r: Fallible<Version>)
        ensures
            (match r {
                Ok(v) => parse_spec(text@) == ParseOutcome::Parsed(v@),
                Err(e) => {
                    &&& e.details is VersionParseError
                    &&& parse_spec(text@) == ParseOutcome::Rejected(e.details.spec_message())
                    &&& e.cause_messages() == Seq::<Seq<char>>::empty()
                },
            }),
    {
        match parse_version_text(text) {
            Ok(v) => Ok(v),
            Err(m) => Err(VoltaError::new(ErrorDetails::VersionParseError { error: m })),
        }
    }

    /// Renders this version to its canonical text.
    pub fn text(&self) -> (r: String)
        ensures
            r@ == version_chars(self@),
    {
        proof {
            reveal_strlit(".");
            reveal_strlit("-");
            reveal_strlit("+");
        }
        let mut out = String::new();
        push_decimal(&mut out, self.major);
        out.append(".");
        push_decimal(&mut out, self.minor);
        out.append(".");
        push_decimal(&mut out, self.patch);
        if self.pre.len() > 0 {
            out.append("-");
            push_idents(&mut out, &self.pre);
        }
        if self.build.len() > 0 {
            out.append("+");
            push_idents(&mut out, &self.build);
        }
        proof {
            assert(out@ =~= version_chars(self@));
        }
        out
    }
}

impl Version {
    /// Decides the strict precedence order on versions.
    pub fn lt(&self, other: &Version) -> (r: bool)
        ensures
            r == version_lt(self@, other@),
    {
        if self.major != other.major {
            return self.major < other.major;
        }
        if self.minor != other.minor {
            return self.minor < other.minor;
        }
        if self.patch != other.patch {
            return self.patch < other.patch;
        }
        if self.pre.len() == 0 {
            return false;
        }
        if other.pre.len() == 0 {
            return true;
        }
        idents_lt_exec(&self.pre, &other.pre)
    }
}

} // verus!
