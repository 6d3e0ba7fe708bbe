use vstd::prelude::*;
use vstd::string::StrSliceExecFns;
use crate::error::InstallError;

verus! {

/// One dot-separated pre-release identifier: numeric identifiers hold their
/// ASCII digits (compared numerically, which for identifiers without leading
/// zeros is length order then byte order), alphanumeric identifiers are
/// compared bytewise.
#[derive(Debug)]
pub enum PreIdent {
    Numeric(Vec<u8>),
    Alpha(Vec<u8>),
}

pub enum PreIdentView {
    Numeric(Seq<u8>),
    Alpha(Seq<u8>),
}

impl View for PreIdent {
    type V = PreIdentView;

    open spec fn view(&self) -> PreIdentView {
        match self {
            PreIdent::Numeric(b) => PreIdentView::Numeric(b@),
            PreIdent::Alpha(b) => PreIdentView::Alpha(b@),
        }
    }
}

/// A semantic version: three numeric components and the pre-release
/// identifiers. Build metadata does not affect precedence and is not kept.
#[derive(Debug)]
pub struct Version {
    pub major: u64,
    pub minor: u64,
    pub patch: u64,
    pub pre: Vec<PreIdent>,
}

#[verifier::ext_equal]
pub struct VersionView {
    pub major: u64,
    pub minor: u64,
    pub patch: u64,
    pub pre: Seq<PreIdentView>,
}

impl View for Version {
    type V = VersionView;

    open spec fn view(&self) -> VersionView {
        VersionView {
            major: self.major,
            minor: self.minor,
            patch: self.patch,
            pre: self.pre@.map_values(|i: PreIdent| i@),
        }
    }
}

/// Strict bytewise lexicographic order; a proper prefix precedes the longer
/// sequence, equal sequences are not ordered.
pub open spec fn bytes_lex_lt(x: Seq<u8>, y: Seq<u8>) -> bool
    decreases x.len(),
{
    if y.len() == 0 {
        false
    } else if x.len() == 0 {
        true
    } else if x[0] != y[0] {
        x[0] < y[0]
    } else {
        bytes_lex_lt(x.drop_first(), y.drop_first())
    }
}

/// Pre-release identifier precedence: numeric before alphanumeric; numeric
/// against numeric by digit count then bytes; alphanumeric bytewise.
pub open spec fn ident_lt(a: PreIdentView, b: PreIdentView) -> bool {
    match (a, b) {
        (PreIdentView::Numeric(x), PreIdentView::Numeric(y)) => x.len() < y.len() || (x.len()
            == y.len() && bytes_lex_lt(x, y)),
        (PreIdentView::Numeric(_), PreIdentView::Alpha(_)) => true,
        (PreIdentView::Alpha(_), PreIdentView::Numeric(_)) => false,
        (PreIdentView::Alpha(x), PreIdentView::Alpha(y)) => bytes_lex_lt(x, y),
    }
}

/// Lexicographic order on identifier lists; a shorter list that is a prefix
/// of a longer one precedes it.
pub open spec fn idents_lt(a: Seq<PreIdentView>, b: Seq<PreIdentView>) -> bool
    decreases a.len(),
{
    if b.len() == 0 {
        false
    } else if a.len() == 0 {
        true
    } else if a[0] != b[0] {
        ident_lt(a[0], b[0])
    } else {
        idents_lt(a.drop_first(), b.drop_first())
    }
}

/// Semantic-version precedence: numeric components in order, then any
/// pre-release precedes the plain release, then identifier-list order.
pub open spec fn version_lt(a: VersionView, b: VersionView) -> bool {
    if a.major != b.major {
        a.major < b.major
    } else if a.minor != b.minor {
        a.minor < b.minor
    } else if a.patch != b.patch {
        a.patch < b.patch
    } else if a.pre.len() > 0 && b.pre.len() == 0 {
        true
    } else if a.pre.len() == 0 {
        false
    } else {
        idents_lt(a.pre, b.pre)
    }
}

proof fn lemma_bytes_lex_lt_asymmetric(x: Seq<u8>, y: Seq<u8>)
    ensures
        bytes_lex_lt(x, y) ==> !bytes_lex_lt(y, x),
    decreases x.len(),
{
    if y.len() > 0 && x.len() > 0 && x[0] == y[0] {
        lemma_bytes_lex_lt_asymmetric(x.drop_first(), y.drop_first());
    }
}

proof fn lemma_bytes_lex_lt_connected(x: Seq<u8>, y: Seq<u8>)
    ensures
        !bytes_lex_lt(x, y) && !bytes_lex_lt(y, x) ==> x == y,
    decreases x.len(),
{
    if y.len() == 0 {
        if x.len() == 0 {
            assert(x =~= y);
        }
    } else if x.len() == 0 {
    } else if x[0] == y[0] {
        lemma_bytes_lex_lt_connected(x.drop_first(), y.drop_first());
        if !bytes_lex_lt(x, y) && !bytes_lex_lt(y, x) {
            assert(x.drop_first() == y.drop_first());
            assert(x.len() == y.len());
            assert forall|i: int| 0 <= i < x.len() implies x[i] == y[i] by {
                if i > 0 {
                    assert(x.drop_first()[i - 1] == x[i]);
                    assert(y.drop_first()[i - 1] == y[i]);
                }
            }
            assert(x =~= y);
        }
    }
}

proof fn lemma_ident_lt_asymmetric(a: PreIdentView, b: PreIdentView)
    ensures
        ident_lt(a, b) ==> !ident_lt(b, a),
{
    match (a, b) {
        (PreIdentView::Numeric(x), PreIdentView::Numeric(y)) => {
            lemma_bytes_lex_lt_asymmetric(x, y);
        },
        (PreIdentView::Alpha(x), PreIdentView::Alpha(y)) => {
            lemma_bytes_lex_lt_asymmetric(x, y);
        },
        _ => {},
    }
}

proof fn lemma_ident_lt_connected(a: PreIdentView, b: PreIdentView)
    ensures
        !ident_lt(a, b) && !ident_lt(b, a) ==> a == b,
{
    match (a, b) {
        (PreIdentView::Numeric(x), PreIdentView::Numeric(y)) => {
            lemma_bytes_lex_lt_connected(x, y);
        },
        (PreIdentView::Alpha(x), PreIdentView::Alpha(y)) => {
            lemma_bytes_lex_lt_connected(x, y);
        },
        _ => {},
    }
}

proof fn lemma_idents_lt_asymmetric(a: Seq<PreIdentView>, b: Seq<PreIdentView>)
    ensures
        idents_lt(a, b) ==> !idents_lt(b, a),
    decreases a.len(),
{
    if b.len() > 0 && a.len() > 0 {
        if a[0] != b[0] {
            lemma_ident_lt_asymmetric(a[0], b[0]);
            lemma_ident_lt_connected(a[0], b[0]);
        } else {
            lemma_idents_lt_asymmetric(a.drop_first(), b.drop_first());
        }
    }
}

proof fn lemma_idents_lt_connected(a: Seq<PreIdentView>, b: Seq<PreIdentView>)
    ensures
        !idents_lt(a, b) && !idents_lt(b, a) ==> a == b,
    decreases a.len(),
{
    if b.len() == 0 {
        if a.len() == 0 {
            assert(a =~= b);
        }
    } else if a.len() == 0 {
    } else if a[0] != b[0] {
        lemma_ident_lt_connected(a[0], b[0]);
    } else {
        lemma_idents_lt_connected(a.drop_first(), b.drop_first());
        if !idents_lt(a, b) && !idents_lt(b, a) {
            assert(a.drop_first() == b.drop_first());
            assert(a.len() == b.len());
            assert forall|i: int| 0 <= i < a.len() implies a[i] == b[i] by {
                if i > 0 {
                    assert(a.drop_first()[i - 1] == a[i]);
                    assert(b.drop_first()[i - 1] == b[i]);
                }
            }
            assert(a =~= b);
        }
    }
}

proof fn lemma_bytes_lex_lt_transitive(x: Seq<u8>, y: Seq<u8>, z: Seq<u8>)
    ensures
        bytes_lex_lt(x, y) && bytes_lex_lt(y, z) ==> bytes_lex_lt(x, z),
    decreases x.len(),
{
    if x.len() > 0 && y.len() > 0 && z.len() > 0 && x[0] == y[0] && y[0] == z[0] {
        lemma_bytes_lex_lt_transitive(x.drop_first(), y.drop_first(), z.drop_first());
    }
}

proof fn lemma_ident_lt_transitive(a: PreIdentView, b: PreIdentView, c: PreIdentView)
    ensures
        ident_lt(a, b) && ident_lt(b, c) ==> ident_lt(a, c),
{
    match (a, b, c) {
        (PreIdentView::Numeric(x), PreIdentView::Numeric(y), PreIdentView::Numeric(z)) => {
            lemma_bytes_lex_lt_transitive(x, y, z);
        },
        (PreIdentView::Alpha(x), PreIdentView::Alpha(y), PreIdentView::Alpha(z)) => {
            lemma_bytes_lex_lt_transitive(x, y, z);
        },
        _ => {},
    }
}

proof fn lemma_idents_lt_transitive(
    a: Seq<PreIdentView>,
    b: Seq<PreIdentView>,
    c: Seq<PreIdentView>,
)
    ensures
        idents_lt(a, b) && idents_lt(b, c) ==> idents_lt(a, c),
    decreases a.len(),
{
    if a.len() > 0 && b.len() > 0 && c.len() > 0 {
        lemma_ident_lt_asymmetric(a[0], b[0]);
        lemma_ident_lt_transitive(a[0], b[0], c[0]);
        if a[0] == b[0] && b[0] == c[0] {
            lemma_idents_lt_transitive(a.drop_first(), b.drop_first(), c.drop_first());
        }
    }
}

/// Precedence is asymmetric: no two versions precede each other.
pub proof fn lemma_version_lt_asymmetric(a: VersionView, b: VersionView)
    ensures
        version_lt(a, b) ==> !version_lt(b, a),
{
    lemma_idents_lt_asymmetric(a.pre, b.pre);
}

/// Precedence is transitive.
pub proof fn lemma_version_lt_transitive(a: VersionView, b: VersionView, c: VersionView)
    ensures
        version_lt(a, b) && version_lt(b, c) ==> version_lt(a, c),
{
    lemma_idents_lt_transitive(a.pre, b.pre, c.pre);
}

/// Precedence is connected: two versions neither of which precedes the
/// other are equal. With asymmetry and transitivity, precedence is a strict
/// total order on versions.
pub proof fn lemma_version_lt_connected(a: VersionView, b: VersionView)
    ensures
        !version_lt(a, b) && !version_lt(b, a) ==> a == b,
{
    lemma_idents_lt_connected(a.pre, b.pre);
    if !version_lt(a, b) && !version_lt(b, a) {
        assert(a.pre == b.pre);
        assert(a =~= b);
    }
}

fn bytes_eq(x: &Vec<u8>, y: &Vec<u8>) -> (r: bool)
    ensures
        r == (x@ == y@),
{
    if x.len() != y.len() {
        assert(x@ != y@);
        return false;
    }
    let mut i: usize = 0;
    while i < x.len()
        invariant
            x@.len() == y@.len(),
            0 <= i <= x@.len(),
            forall|k: int| 0 <= k < i ==> x@[k] == y@[k],
        decreases x@.len() - i,
    {
        if x[i] != y[i] {
            assert(x@ != y@);
            return false;
        }
        i = i + 1;
    }
    assert(x@ =~= y@);
    true
}

fn bytes_lex_lt_exec(x: &Vec<u8>, y: &Vec<u8>) -> (r: bool)
    ensures
        r == bytes_lex_lt(x@, y@),
{
    let mut i: usize = 0;
    proof {
        assert(x@.skip(0) =~= x@);
        assert(y@.skip(0) =~= y@);
    }
    loop
        invariant
            0 <= i <= x@.len(),
            i <= y@.len(),
            bytes_lex_lt(x@, y@) == bytes_lex_lt(x@.skip(i as int), y@.skip(i as int)),
        decreases x@.len() - i,
    {
        if i >= y.len() {
            assert(y@.skip(i as int).len() == 0);
            return false;
        }
        if i >= x.len() {
            assert(x@.skip(i as int).len() == 0);
            assert(y@.skip(i as int).len() > 0);
            return true;
        }
        let xi = x[i];
        let yi = y[i];
        assert(x@.skip(i as int)[0] == x@[i as int]);
        assert(y@.skip(i as int)[0] == y@[i as int]);
        if xi != yi {
            return xi < yi;
        }
        proof {
            assert(x@.skip(i as int).drop_first() =~= x@.skip(i + 1));
            assert(y@.skip(i as int).drop_first() =~= y@.skip(i + 1));
        }
        i = i + 1;
    }
}

impl PreIdent {
    fn eq_ident(&self, other: &PreIdent) -> (r: bool)
        ensures
            r == (self@ == other@),
    {
        match (self, other) {
            (PreIdent::Numeric(x), PreIdent::Numeric(y)) => bytes_eq(x, y),
            (PreIdent::Alpha(x), PreIdent::Alpha(y)) => bytes_eq(x, y),
            _ => false,
        }
    }

    fn lt_ident(&self, other: &PreIdent) -> (r: bool)
        ensures
            r == ident_lt(self@, other@),
    {
        match (self, other) {
            (PreIdent::Numeric(x), PreIdent::Numeric(y)) => {
                if x.len() != y.len() {
                    x.len() < y.len()
                } else {
                    bytes_lex_lt_exec(x, y)
                }
            },
            (PreIdent::Numeric(_), PreIdent::Alpha(_)) => true,
            (PreIdent::Alpha(_), PreIdent::Numeric(_)) => false,
            (PreIdent::Alpha(x), PreIdent::Alpha(y)) => bytes_lex_lt_exec(x, y),
        }
    }
}

/// Split a byte sequence at every dot, `cur` being the piece read so far.
pub open spec fn split_dots(s: Seq<u8>, cur: Seq<u8>) -> Seq<Seq<u8>>
    decreases s.len(),
{
    if s.len() == 0 {
        seq![cur]
    } else if s[0] == 46u8 {
        seq![cur] + split_dots(s.drop_first(), Seq::empty())
    } else {
        split_dots(s.drop_first(), cur.push(s[0]))
    }
}

pub open spec fn is_digits(s: Seq<u8>) -> bool {
    forall|i: int| 0 <= i < s.len() ==> 48 <= #[trigger] s[i] <= 57
}

/// A piece is a numeric identifier exactly when it is non-empty and all
/// digits; anything else is alphanumeric.
pub open spec fn ident_of(piece: Seq<u8>) -> PreIdentView {
    if piece.len() > 0 && is_digits(piece) {
        PreIdentView::Numeric(piece)
    } else {
        PreIdentView::Alpha(piece)
    }
}

/// The identifier list denoted by a pre-release string: empty for the empty
/// string, otherwise its dot-separated pieces, each classified.
pub open spec fn pre_view_of(s: Seq<u8>) -> Seq<PreIdentView> {
    if s.len() == 0 {
        Seq::empty()
    } else {
        split_dots(s, Seq::empty()).map_values(|p: Seq<u8>| ident_of(p))
    }
}

fn classify_ident(piece: Vec<u8>) -> (r: PreIdent)
    ensures
        r@ == ident_of(piece@),
{
    if piece.len() == 0 {
        return PreIdent::Alpha(piece);
    }
    let mut j: usize = 0;
    while j < piece.len()
        invariant
            0 <= j <= piece@.len(),
            forall|k: int| 0 <= k < j ==> 48 <= #[trigger] piece@[k] <= 57,
        decreases piece@.len() - j,
    {
        let b = piece[j];
        if b < 48 || b > 57 {
            assert(!is_digits(piece@));
            return PreIdent::Alpha(piece);
        }
        j = j + 1;
    }
    assert(is_digits(piece@));
    PreIdent::Numeric(piece)
}

/// Parse a pre-release string's bytes into its identifier list.
fn parse_pre(bytes: &Vec<u8>) -> (r: Vec<PreIdent>)
    ensures
        r@.map_values(|x: PreIdent| x@) == pre_view_of(bytes@),
{
    let ghost s = bytes@;
    let mut out: Vec<PreIdent> = Vec::new();
    if bytes.len() == 0 {
        assert(out@.map_values(|x: PreIdent| x@) =~= pre_view_of(s));
        return out;
    }
    let mut cur: Vec<u8> = Vec::new();
    let ghost mut done = Seq::<Seq<u8>>::empty();
    let mut i: usize = 0;
    proof {
        assert(s.skip(0) =~= s);
        assert(done + split_dots(s.skip(0), cur@) =~= split_dots(s, Seq::empty()));
    }
    while i < bytes.len()
        invariant
            s == bytes@,
            s.len() > 0,
            0 <= i <= s.len(),
            split_dots(s, Seq::empty()) == done + split_dots(s.skip(i as int), cur@),
            out@.map_values(|x: PreIdent| x@) == done.map_values(|p: Seq<u8>| ident_of(p)),
        decreases s.len() - i,
    {
        let b = bytes[i];
        assert(s.skip(i as int)[0] == s[i as int]);
        assert(s.skip(i as int).drop_first() =~= s.skip(i + 1));
        if b == 46 {
            let ghost done_next = done.push(cur@);
            proof {
                assert(done + (seq![cur@] + split_dots(s.skip(i + 1), Seq::<u8>::empty()))
                    =~= done_next + split_dots(s.skip(i + 1), Seq::<u8>::empty()));
                assert(done_next.map_values(|p: Seq<u8>| ident_of(p)) =~= done.map_values(
                    |p: Seq<u8>| ident_of(p),
                ).push(ident_of(cur@)));
            }
            let piece = cur;
            cur = Vec::new();
            let id = classify_ident(piece);
            out.push(id);
            proof {
                assert(out@.map_values(|x: PreIdent| x@) =~= done_next.map_values(
                    |p: Seq<u8>| ident_of(p),
                ));
                done = done_next;
            }
            i = i + 1;
        } else {
            cur.push(b);
            i = i + 1;
        }
    }
    assert(s.skip(i as int).len() == 0);
    assert(split_dots(s.skip(i as int), cur@) =~= seq![cur@]);
    let ghost done_next = done.push(cur@);
    proof {
        assert(split_dots(s, Seq::empty()) =~= done_next);
        assert(done_next.map_values(|p: Seq<u8>| ident_of(p)) =~= done.map_values(
            |p: Seq<u8>| ident_of(p),
        ).push(ident_of(cur@)));
    }
    let id = classify_ident(cur);
    out.push(id);
    assert(out@.map_values(|x: PreIdent| x@) =~= done_next.map_values(|p: Seq<u8>| ident_of(p)));
    out
}

/// What `semver::Version::parse` makes of a text: `None` where the text is
/// not a valid semantic version, otherwise the major, minor and patch
/// numbers and the bytes of the pre-release component (empty when absent).
pub uninterp spec fn semver_parts(s: Seq<char>) -> Option<(u64, u64, u64, Seq<u8>)>;

/// Relies on semver::Version::parse: acceptance and the parsed components
/// follow the SemVer 2.0.0 grammar, a function of the text alone; build
/// metadata has no effect on precedence and is dropped.
#[verifier::external_body]
fn semver_parse(s: &str) -> (r: Option<(u64, u64, u64, Vec<u8>)>)
    ensures
        match semver_parts(s@) {
            Some(p) => r matches Some(q) && q.0 == p.0 && q.1 == p.1 && q.2 == p.2 && q.3@ == p.3,
            None => r is None,
        },
{
    match semver::Version::parse(s) {
        Ok(v) => Some((v.major, v.minor, v.patch, v.pre.as_str().as_bytes().to_vec())),
        Err(_) => None,
    }
}

/// The tag with every leading `v` removed.
pub open spec fn trimmed_v(s: Seq<char>) -> Seq<char>
    decreases s.len(),
{
    if s.len() > 0 && s[0] == 'v' {
        trimmed_v(s.drop_first())
    } else {
        s
    }
}

/// Strip every leading `v` from a release tag.
pub fn trim_leading_v(s: &str) -> (r: &str)
    ensures
        r@ == trimmed_v(s@),
{
    let n = s.unicode_len();
    let mut i: usize = 0;
    proof {
        assert(s@.skip(0) =~= s@);
    }
    while i < n && s.get_char(i) == 'v'
        invariant
            n == s@.len(),
            0 <= i <= n,
            trimmed_v(s@) == trimmed_v(s@.skip(i as int)),
        decreases n - i,
    {
        proof {
            assert(s@.skip(i as int)[0] == s@[i as int]);
            assert(s@.skip(i as int).drop_first() =~= s@.skip(i + 1));
        }
        i = i + 1;
    }
    let r = s.substring_char(i, n);
    proof {
        assert(r@ =~= s@.skip(i as int));
        if i < n {
            assert(s@.skip(i as int)[0] == s@[i as int]);
        }
        assert(trimmed_v(s@.skip(i as int)) == s@.skip(i as int));
    }
    r
}

impl Version {
    /// The version denoted by parsed components.
    pub open spec fn parts_view(p: (u64, u64, u64, Seq<u8>)) -> VersionView {
        VersionView { major: p.0, minor: p.1, patch: p.2, pre: pre_view_of(p.3) }
    }

    /// Parse a semantic-version text, rejecting anything outside the strict
    /// grammar.
    pub fn parse(s: &str) -> (r: Result<Version, InstallError>)
        ensures
            match semver_parts(s@) {
                Some(p) => r matches Ok(v) && v@ == Self::parts_view(p),
                None => r matches Err(e) && e is VersionParseError,
            },
    {
        match semver_parse(s) {
            Some(q) => {
                let pre = parse_pre(&q.3);
                let v = Version { major: q.0, minor: q.1, patch: q.2, pre };
                proof {
                    assert(v@ =~= Self::parts_view((q.0, q.1, q.2, q.3@)));
                }
                Ok(v)
            },
            None => Err(InstallError::VersionParseError),
        }
    }

    /// Parse a release tag: leading `v` markers are stripped first.
    pub fn parse_tag(tag: &str) -> (r: Result<Version, InstallError>)
        ensures
            match semver_parts(trimmed_v(tag@)) {
                Some(p) => r matches Ok(v) && v@ == Self::parts_view(p),
                None => r matches Err(e) && e is VersionParseError,
            },
    {
        Version::parse(trim_leading_v(tag))
    }
}

impl Version {
    /// Does `self` strictly precede `other` in semantic-version order?
    pub fn precedes(&self, other: &Version) -> (r: bool)
        ensures
            r == version_lt(self@, other@),
    {
        if self.major != other.major {
            return self.major < other.major;
        }
        if self.minor != other.minor {
            return self.minor < other.minor;
        }
        if self.patch != other.patch {
            return self.patch < other.patch;
        }
        if self.pre.len() > 0 && other.pre.len() == 0 {
            return true;
        }
        if self.pre.len() == 0 {
            return false;
        }
        let ghost av = self@.pre;
        let ghost bv = other@.pre;
        let mut i: usize = 0;
        proof {
            assert(av.len() == self.pre@.len());
            assert(bv.len() == other.pre@.len());
            assert(av.skip(0) =~= av);
            assert(bv.skip(0) =~= bv);
        }
        loop
            invariant
                0 <= i <= av.len(),
                i <= bv.len(),
                av == self@.pre,
                bv == other@.pre,
                av.len() == self.pre@.len(),
                bv.len() == other.pre@.len(),
                self.major == other.major,
                self.minor == other.minor,
                self.patch == other.patch,
                av.len() > 0,
                bv.len() > 0,
                idents_lt(av, bv) == idents_lt(av.skip(i as int), bv.skip(i as int)),
            decreases av.len() - i,
        {
            if i >= other.pre.len() {
                assert(bv.skip(i as int).len() == 0);
                return false;
            }
            if i >= self.pre.len() {
                assert(av.skip(i as int).len() == 0);
                assert(bv.skip(i as int).len() > 0);
                return true;
            }
            assert(av.skip(i as int)[0] == av[i as int]);
            assert(bv.skip(i as int)[0] == bv[i as int]);
            assert(av[i as int] == self.pre@[i as int]@);
            assert(bv[i as int] == other.pre@[i as int]@);
            if !self.pre[i].eq_ident(&other.pre[i]) {
                return self.pre[i].lt_ident(&other.pre[i]);
            }
            proof {
                assert(av.skip(i as int).drop_first() =~= av.skip(i + 1));
                assert(bv.skip(i as int).drop_first() =~= bv.skip(i + 1));
            }
            i = i + 1;
        }
    }
}

} // verus!
