//! What lines promise.
use crate::backend_engram::{any_parts, opt_any_parts};
use crate::laws::texts::{law_split_is_at_the_first_separator, law_what_follows_a_prefix};
use crate::line::{
    is_cred_text, lacks, law_line_round_trip, law_read_line_is_its_parts, law_version_is_unique,
    line_parts, line_text, opt_parts, path_text, plain_path, tag_text, version_of, LineVersion,
};
use crate::text::{occurs_at, split_first};
use vstd::prelude::*;

verus! {

/// A line is its tag, the service, a slash, the key, an equals sign between spaces
/// and the body.
pub proof fn law_line_is_written_so(service: Seq<char>, key: Seq<char>, body: Seq<char>)
    ensures
        line_text(LineVersion::V1, service, key, body) == "[CRED] "@ + service + "/"@ + key
            + " = "@ + body,
        line_text(LineVersion::V2, service, key, body) == "[CRED:v2] "@ + service + "/"@ + key
            + " = "@ + body,
        line_text(LineVersion::V3, service, key, body) == "[CRED:v3] "@ + service + "/"@ + key
            + " = "@ + body,
{
    assert(line_text(LineVersion::V1, service, key, body) =~= "[CRED] "@ + service + "/"@ + key
        + " = "@ + body);
    assert(line_text(LineVersion::V2, service, key, body) =~= "[CRED:v2] "@ + service + "/"@ + key
        + " = "@ + body);
    assert(line_text(LineVersion::V3, service, key, body) =~= "[CRED:v3] "@ + service + "/"@ + key
        + " = "@ + body);
}

/// The version of a text is told by how it starts.
pub proof fn law_version_is_told_by_the_start(content: Seq<char>)
    ensures
        version_of(content) == Some(LineVersion::V1) <==> "[CRED] "@.is_prefix_of(content),
        version_of(content) == Some(LineVersion::V2) <==> "[CRED:v2] "@.is_prefix_of(content),
        version_of(content) == Some(LineVersion::V3) <==> "[CRED:v3] "@.is_prefix_of(content),
        is_cred_text(content) <==> "[CRED"@.is_prefix_of(content),
        version_of(content) is Some ==> is_cred_text(content),
{
    law_version_is_unique(LineVersion::V1, content);
    law_version_is_unique(LineVersion::V2, content);
    law_version_is_unique(LineVersion::V3, content);
    lemma_tagged_is_cred(content);
}

proof fn lemma_tagged_is_cred(content: Seq<char>)
    ensures
        version_of(content) is Some ==> is_cred_text(content),
{
    reveal_strlit("[CRED] ");
    reveal_strlit("[CRED:v2] ");
    reveal_strlit("[CRED:v3] ");
    reveal_strlit("[CRED");
    if let Some(version) = version_of(content) {
        let tag = tag_text(version);
        assert(tag =~= content.subrange(0, tag.len() as int));
        assert forall|i: int| 0 <= i < 5 implies content[i] == "[CRED"@[i] by {
            assert(content[i] == tag[i]);
        }
        assert("[CRED"@ =~= content.subrange(0, 5));
    }
}

/// A path is plain where the service has no slash, and an equals sign between
/// spaces starts nowhere in what stands before the one that ends the path.
pub proof fn law_plain_paths(service: Seq<char>, key: Seq<char>)
    ensures
        plain_path(service, key) <==> !service.contains('/') && forall|j: int|
            0 <= j <= service.len() + key.len() ==> !" = "@.is_prefix_of(
                #[trigger] (service + "/"@ + key + " = "@).skip(j),
            ),
{
    reveal_strlit("/");
    reveal_strlit(" = ");
    reveal_strlit(" =");
    let whole = service + "/"@ + key + " = "@;
    let path = path_text(service, key) + " ="@;
    assert(path =~= whole.drop_last());
    assert(lacks(service, "/"@) <==> !service.contains('/')) by {
        if service.contains('/') {
            let i = choose|i: int| 0 <= i < service.len() && service[i] == '/';
            assert(service.subrange(i, i + 1) =~= "/"@);
            assert(occurs_at(service, "/"@, i));
        }
        if exists|i: int| #[trigger] occurs_at(service, "/"@, i) {
            let i = choose|i: int| #[trigger] occurs_at(service, "/"@, i);
            assert(service.subrange(i, i + 1)[0] == "/"@[0]);
            assert(service[i] == '/');
        }
    }
    assert forall|j: int| 0 <= j <= service.len() + key.len() implies (occurs_at(path, " = "@, j)
        <==> " = "@.is_prefix_of(#[trigger] whole.skip(j))) by {
        assert(whole.skip(j).subrange(0, 3) =~= path.subrange(j, j + 3));
        if " = "@.is_prefix_of(whole.skip(j)) {
            assert(" = "@ =~= whole.skip(j).subrange(0, 3));
        }
    }
    if lacks(path, " = "@) {
        assert forall|j: int| 0 <= j <= service.len() + key.len() implies !" = "@.is_prefix_of(
            #[trigger] whole.skip(j),
        ) by {
            assert(!occurs_at(path, " = "@, j));
        }
    }
    if forall|j: int|
        0 <= j <= service.len() + key.len() ==> !" = "@.is_prefix_of(#[trigger] whole.skip(j)) {
        assert forall|j: int| !#[trigger] occurs_at(path, " = "@, j) by {
            if occurs_at(path, " = "@, j) {
                assert(!" = "@.is_prefix_of(whole.skip(j)));
            }
        }
    }
}

/// A line of any version is parsed into the very parts that it is made of, the
/// body unchanged, with the mark of an older version for all but the current one;
/// and whatever is parsed is a line made of the parts.
pub proof fn law_any_line_is_parsed_into_its_parts(
    version: LineVersion,
    service: Seq<char>,
    key: Seq<char>,
    body: Seq<char>,
    content: Seq<char>,
)
    ensures
        plain_path(service, key) ==> any_parts(line_text(version, service, key, body)) == Some(
            ((service, key, body), version != LineVersion::V3),
        ),
        plain_path(service, key) ==> line_parts(version, line_text(version, service, key, body))
            == Some((service, key, body)),
        line_parts(version, content) == Some((service, key, body)) ==> content == line_text(
            version,
            service,
            key,
            body,
        ) && plain_path(service, key),
        any_parts(content) matches Some((parts, legacy)) ==> exists|v: LineVersion|
            {
                &&& content == #[trigger] line_text(v, parts.0, parts.1, parts.2)
                &&& legacy == (v != LineVersion::V3)
                &&& plain_path(parts.0, parts.1)
            },
{
    law_line_round_trip(version, service, key, body);
    law_version_is_unique(version, line_text(version, service, key, body));
    if line_parts(version, content) == Some((service, key, body)) {
        law_read_line_is_its_parts(version, content, service, key, body);
    }
    if let Some((parts, legacy)) = any_parts(content) {
        let v = version_of(content)->0;
        law_read_line_is_its_parts(v, content, parts.0, parts.1, parts.2);
        assert(content == line_text(v, parts.0, parts.1, parts.2));
    }
}

/// The parts that parsing gives are the strings given out, part by part.
pub proof fn law_parts_are_given_as_they_are(
    a: &str,
    b: &str,
    c: &str,
    s: String,
    k: String,
    d: String,
    legacy: bool,
)
    ensures
        opt_parts(Some((a, b, c))) == Some((a@, b@, c@)),
        opt_parts(None) is None,
        opt_any_parts(Some((s, k, d, legacy))) == Some(((s@, k@, d@), legacy)),
        opt_any_parts(None) is None,
{
}

/// What is not parsed lacks a tag, or its mark between path and body, or a slash
/// in the path.
pub proof fn law_what_is_not_parsed_lacks_a_mark(version: LineVersion, rest: Seq<char>)
    ensures
        line_parts(version, tag_text(version) + rest) is None ==> (forall|j: int|
            0 <= j <= rest.len() ==> !" = "@.is_prefix_of(#[trigger] rest.skip(j))) || exists|
            path: Seq<char>,
            body: Seq<char>,
        |
            rest == #[trigger] (path + " = "@ + body) && !path.contains('/'),
{
    let content = tag_text(version) + rest;
    law_what_follows_a_prefix(content, tag_text(version), rest);
    law_split_is_at_the_first_separator(rest, " = "@);
    if let Some((path, body)) = split_first(rest, " = "@) {
        law_split_is_at_the_first_separator(path, "/"@);
        reveal_strlit("/");
        if line_parts(version, content) is None {
            assert(!path.contains('/')) by {
                if path.contains('/') {
                    let i = choose|i: int| 0 <= i < path.len() && path[i] == '/';
                    assert("/"@ =~= path.skip(i).subrange(0, 1));
                    assert("/"@.is_prefix_of(path.skip(i)));
                }
            }
            assert(rest == path + " = "@ + body);
        }
    }
}

} // verus!
