//! The text lines that secrets are kept as: a tag, the path `service/key`, an
//! equals sign and a body.
use crate::text::{
    after_prefix, first_at, lemma_first_unique, occurs_at, split_first, split_once, starts_with,
    strip_prefix,
};
use vstd::prelude::*;

verus! {

/// The versions of the line format.
#[derive(Debug, Clone, Copy, PartialEq, Eq, Structural)]
pub enum LineVersion {
    /// The body is the base64 of the raw value.
    V1,
    /// The body is the hexadecimal of the encrypted raw value.
    V2,
    /// The body is the hexadecimal of an encrypted secret value.
    V3,
}

/// The path, service before key, and the body of a line.
pub type LineParts = (Seq<char>, Seq<char>, Seq<char>);

/// What a line of the given version starts with.
pub open spec fn tag_text(version: LineVersion) -> Seq<char> {
    match version {
        LineVersion::V1 => "[CRED] "@,
        LineVersion::V2 => "[CRED:v2] "@,
        LineVersion::V3 => "[CRED:v3] "@,
    }
}

/// The path of a secret.
pub open spec fn path_text(service: Seq<char>, key: Seq<char>) -> Seq<char> {
    service + "/"@ + key
}

/// What follows the tag of a line.
pub open spec fn untagged_text(service: Seq<char>, key: Seq<char>, body: Seq<char>) -> Seq<char> {
    path_text(service, key) + " = "@ + body
}

/// A whole line.
pub open spec fn line_text(
    version: LineVersion,
    service: Seq<char>,
    key: Seq<char>,
    body: Seq<char>,
) -> Seq<char> {
    tag_text(version) + untagged_text(service, key, body)
}

/// The parts of what follows a tag: the path ends at the first ` = `, and the
/// service at the first slash of the path.
pub open spec fn untagged_parts(rest: Seq<char>) -> Option<LineParts> {
    match split_first(rest, " = "@) {
        Some((path, body)) => match split_first(path, "/"@) {
            Some((service, key)) => Some((service, key, body)),
            None => None,
        },
        None => None,
    }
}

/// The parts of a line of the given version, if `content` is one.
pub open spec fn line_parts(version: LineVersion, content: Seq<char>) -> Option<LineParts> {
    match after_prefix(content, tag_text(version)) {
        Some(rest) => untagged_parts(rest),
        None => None,
    }
}

/// The version that the tag of `content` names, if it has one.
pub open spec fn version_of(content: Seq<char>) -> Option<LineVersion> {
    if tag_text(LineVersion::V3).is_prefix_of(content) {
        Some(LineVersion::V3)
    } else if tag_text(LineVersion::V2).is_prefix_of(content) {
        Some(LineVersion::V2)
    } else if tag_text(LineVersion::V1).is_prefix_of(content) {
        Some(LineVersion::V1)
    } else {
        None
    }
}

/// `content` starts as every credential line does.
pub open spec fn is_cred_text(content: Seq<char>) -> bool {
    "[CRED"@.is_prefix_of(content)
}

/// `pat` stands nowhere in `s`.
pub open spec fn lacks(s: Seq<char>, pat: Seq<char>) -> bool {
    forall|i: int| !#[trigger] occurs_at(s, pat, i)
}

/// The path can be told from the rest of a line: the service has no slash, and
/// no ` = ` starts in the path.
pub open spec fn plain_path(service: Seq<char>, key: Seq<char>) -> bool {
    &&& lacks(service, "/"@)
    &&& lacks(path_text(service, key) + " ="@, " = "@)
}

/// The texts of the parts of a line.
pub open spec fn opt_parts(p: Option<(&str, &str, &str)>) -> Option<LineParts> {
    match p {
        Some((service, key, body)) => Some((service@, key@, body@)),
        None => None,
    }
}

/// What a line of the given version starts with.
pub fn tag(version: LineVersion) -> (r: &'static str)
    ensures
        r@ == tag_text(version),
{
    match version {
        LineVersion::V1 => "[CRED] ",
        LineVersion::V2 => "[CRED:v2] ",
        LineVersion::V3 => "[CRED:v3] ",
    }
}

/// The parts of what follows a tag.
pub fn split_untagged<'a>(rest: &'a str) -> (r: Option<(&'a str, &'a str, &'a str)>)
    ensures
        opt_parts(r) == untagged_parts(rest@),
{
    match split_once(rest, " = ") {
        Some((path, body)) => match split_once(path, "/") {
            Some((service, key)) => Some((service, key, body)),
            None => None,
        },
        None => None,
    }
}

/// The parts of a line of the given version.
pub fn parse_line<'a>(version: LineVersion, content: &'a str) -> (r: Option<
    (&'a str, &'a str, &'a str),
>)
    ensures
        opt_parts(r) == line_parts(version, content@),
{
    match strip_prefix(content, tag(version)) {
        Some(rest) => split_untagged(rest),
        None => None,
    }
}

/// Whether `content` starts as every credential line does.
pub fn is_cred_line(content: &str) -> (r: bool)
    ensures
        r == is_cred_text(content@),
{
    starts_with(content, "[CRED")
}

/// The version that the tag of `content` names.
pub fn line_version(content: &str) -> (r: Option<LineVersion>)
    ensures
        r == version_of(content@),
{
    if starts_with(content, tag(LineVersion::V3)) {
        Some(LineVersion::V3)
    } else if starts_with(content, tag(LineVersion::V2)) {
        Some(LineVersion::V2)
    } else if starts_with(content, tag(LineVersion::V1)) {
        Some(LineVersion::V1)
    } else {
        None
    }
}

/// A line of the current version.
pub fn format_line(service: &str, key: &str, body: &str) -> (r: String)
    ensures
        r@ == line_text(LineVersion::V3, service@, key@, body@),
        r@ == "[CRED:v3] "@ + service@ + "/"@ + key@ + " = "@ + body@,
{
    let mut r = tag(LineVersion::V3).to_owned();
    r.append(service);
    r.append("/");
    r.append(key);
    r.append(" = ");
    r.append(body);
    assert(r@ =~= line_text(LineVersion::V3, service@, key@, body@));
    r
}

// ---------------------------------------------------------------------------
// Laws
// ---------------------------------------------------------------------------

/// Splitting at a separator that starts nowhere earlier gives back both sides.
proof fn lemma_split_joined(a: Seq<char>, sep: Seq<char>, b: Seq<char>)
    requires
        sep.len() > 0,
        lacks(a + sep.drop_last(), sep),
    ensures
        split_first(a + sep + b, sep) == Some((a, b)),
{
    let s = a + sep + b;
    let n = a.len() as int;
    assert(s.subrange(n, n + sep.len()) =~= sep);
    assert forall|j: int| 0 <= j < n implies !#[trigger] occurs_at(s, sep, j) by {
        if occurs_at(s, sep, j) {
            let t = a + sep.drop_last();
            assert(t =~= s.take(n + sep.len() - 1));
            assert(t.subrange(j, j + sep.len()) =~= s.subrange(j, j + sep.len()));
            assert(occurs_at(t, sep, j));
        }
    }
    assert(first_at(s, sep, n));
    lemma_first_unique(s, sep, n);
    assert(s.take(n) =~= a);
    assert(s.skip(n + sep.len()) =~= b);
}

/// A text is the two sides of its first separator with the separator between,
/// and the separator starts nowhere earlier.
proof fn lemma_split_parts(s: Seq<char>, sep: Seq<char>, a: Seq<char>, b: Seq<char>)
    requires
        sep.len() > 0,
        split_first(s, sep) == Some((a, b)),
    ensures
        s == a + sep + b,
        lacks(a + sep.drop_last(), sep),
{
    let i = choose|i: int| first_at(s, sep, i);
    assert(first_at(s, sep, i));
    assert(s =~= s.take(i) + s.subrange(i, i + sep.len()) + s.skip(i + sep.len()));
    let t = a + sep.drop_last();
    assert(t =~= s.take(i + sep.len() - 1)) by {
        assert(s.subrange(i, i + sep.len()) == sep);
        assert forall|k: int| 0 <= k < t.len() implies t[k] == s[k] by {
            if k >= i {
                assert(sep[k - i] == s.subrange(i, i + sep.len())[k - i]);
            }
        }
    }
    assert forall|j: int| !#[trigger] occurs_at(t, sep, j) by {
        if occurs_at(t, sep, j) {
            assert(t.subrange(j, j + sep.len()) =~= s.subrange(j, j + sep.len()));
            assert(occurs_at(s, sep, j));
        }
    }
}

proof fn lemma_separators()
    ensures
        "/"@.len() == 1,
        " = "@.len() == 3,
        " = "@.drop_last() == " ="@,
        "/"@.drop_last() == Seq::<char>::empty(),
{
    reveal_strlit("/");
    reveal_strlit(" = ");
    reveal_strlit(" =");
    assert(" = "@.drop_last() =~= " ="@);
    assert("/"@.drop_last() =~= Seq::<char>::empty());
}

/// What was written after a tag is read back exactly where the path is plain.
proof fn lemma_untagged_round_trip(service: Seq<char>, key: Seq<char>, body: Seq<char>)
    ensures
        untagged_parts(untagged_text(service, key, body)) == Some((service, key, body))
            <==> plain_path(service, key),
{
    lemma_separators();
    let path = path_text(service, key);
    let text = untagged_text(service, key, body);
    if plain_path(service, key) {
        lemma_split_joined(path, " = "@, body);
        assert(service + "/"@.drop_last() =~= service);
        lemma_split_joined(service, "/"@, key);
    }
    if untagged_parts(text) == Some((service, key, body)) {
        let (p, b) = split_first(text, " = "@)->0;
        lemma_split_parts(text, " = "@, p, b);
        lemma_split_parts(p, "/"@, service, key);
        assert(service + "/"@.drop_last() =~= service);
    }
}

/// The rest after a tag that was put in front.
proof fn lemma_tagged_rest(version: LineVersion, rest: Seq<char>)
    ensures
        after_prefix(tag_text(version) + rest, tag_text(version)) == Some(rest),
{
    assert((tag_text(version) + rest).skip(tag_text(version).len() as int) =~= rest);
    assert(tag_text(version).is_prefix_of(tag_text(version) + rest));
}

/// A line is read back as it was written exactly where its path is plain.
pub proof fn law_line_round_trip(
    version: LineVersion,
    service: Seq<char>,
    key: Seq<char>,
    body: Seq<char>,
)
    ensures
        line_parts(version, line_text(version, service, key, body)) == Some((service, key, body))
            <==> plain_path(service, key),
{
    lemma_tagged_rest(version, untagged_text(service, key, body));
    lemma_untagged_round_trip(service, key, body);
}

/// What was read from a line has a plain path, and writing it again gives the
/// same line.
pub proof fn law_read_line_is_its_parts(
    version: LineVersion,
    content: Seq<char>,
    service: Seq<char>,
    key: Seq<char>,
    body: Seq<char>,
)
    requires
        line_parts(version, content) == Some((service, key, body)),
    ensures
        plain_path(service, key),
        line_text(version, service, key, body) == content,
{
    lemma_separators();
    let rest = after_prefix(content, tag_text(version))->0;
    assert(tag_text(version) + rest =~= content);
    let (path, b) = split_first(rest, " = "@)->0;
    lemma_split_parts(rest, " = "@, path, b);
    lemma_split_parts(path, "/"@, service, key);
    assert(service + "/"@.drop_last() =~= service);
}

/// A line of an older version, rewritten in the current one, is read as the
/// same path and body.
pub proof fn law_rewritten_line_reads_the_same(
    version: LineVersion,
    content: Seq<char>,
    service: Seq<char>,
    key: Seq<char>,
    body: Seq<char>,
)
    requires
        line_parts(version, content) == Some((service, key, body)),
    ensures
        line_parts(LineVersion::V3, line_text(LineVersion::V3, service, key, body)) == Some(
            (service, key, body),
        ),
{
    law_read_line_is_its_parts(version, content, service, key, body);
    law_line_round_trip(LineVersion::V3, service, key, body);
}

proof fn lemma_tags(content: Seq<char>)
    ensures
        tag_text(LineVersion::V1).is_prefix_of(content) ==> is_cred_text(content)
            && content[5] == ']',
        tag_text(LineVersion::V2).is_prefix_of(content) ==> is_cred_text(content)
            && content[5] == ':' && content[7] == '2',
        tag_text(LineVersion::V3).is_prefix_of(content) ==> is_cred_text(content)
            && content[5] == ':' && content[7] == '3',
{
    reveal_strlit("[CRED] ");
    reveal_strlit("[CRED:v2] ");
    reveal_strlit("[CRED:v3] ");
    reveal_strlit("[CRED");
    let t1 = "[CRED] "@;
    let t2 = "[CRED:v2] "@;
    let t3 = "[CRED:v3] "@;
    let c = "[CRED"@;
    if t1.is_prefix_of(content) {
        assert(content[5] == t1[5]);
        assert forall|i: int| 0 <= i < 5 implies content[i] == c[i] by {
            assert(content[i] == t1[i]);
        }
        assert(c =~= content.subrange(0, 5));
    }
    if t2.is_prefix_of(content) {
        assert(content[5] == t2[5] && content[7] == t2[7]);
        assert forall|i: int| 0 <= i < 5 implies content[i] == c[i] by {
            assert(content[i] == t2[i]);
        }
        assert(c =~= content.subrange(0, 5));
    }
    if t3.is_prefix_of(content) {
        assert(content[5] == t3[5] && content[7] == t3[7]);
        assert forall|i: int| 0 <= i < 5 implies content[i] == c[i] by {
            assert(content[i] == t3[i]);
        }
        assert(c =~= content.subrange(0, 5));
    }
}

/// A text is a line of at most one version, and only texts that start as
/// credential lines do are lines at all.
pub proof fn law_version_is_unique(version: LineVersion, content: Seq<char>)
    ensures
        line_parts(version, content) is Some ==> version_of(content) == Some(version)
            && is_cred_text(content),
        tag_text(version).is_prefix_of(content) <==> version_of(content) == Some(version),
{
    lemma_tags(content);
}

} // verus!
