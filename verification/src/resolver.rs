//! From a storage key back to the public address of the object.

use crate::config::{BucketSource, BucketSourceView, CloudMagic, CloudMagicView};
use crate::str_map::StrMap;
use crate::text::{
    contains, first_index_of, find_char, join, joined, occurs_in, split_at_first, split_once,
    starts_with, starts_with_char,
};
use vstd::prelude::*;
use vstd::string::*;
use vstd::utf8::is_ascii_chars;

verus! {

/// Whether a key is handed back as it is: it holds a character that is not ASCII, or it is an
/// address already, or it names a file of the host.
pub open spec fn passes_through(key: Seq<char>) -> bool {
    !is_ascii_chars(key) || "http"@.is_prefix_of(key) || "wxfile"@.is_prefix_of(key)
}

/// The key without one leading `/`.
pub open spec fn stripped(key: Seq<char>) -> Seq<char> {
    if key.len() > 0 && key[0] == '/' {
        key.subrange(1, key.len() as int)
    } else {
        key
    }
}

/// The path and the query of a key: what stands before and behind its first `?`.
pub open spec fn path_and_query(key: Seq<char>) -> (Seq<char>, Seq<char>) {
    match split_at_first(key, '?') {
        Some((path, query)) => (path, query),
        None => (key, Seq::empty()),
    }
}

/// The cloud source's tag of a path that carries none, by the provider's name in the path:
/// `cos` before `tos` before `oss`, and `_cos` where none of them occurs.
pub open spec fn inferred_tag(path: Seq<char>) -> Seq<char> {
    if occurs_in(path, "cos"@) {
        "_cos"@
    } else if occurs_in(path, "tos"@) {
        "_tos"@
    } else if occurs_in(path, "oss"@) {
        "_oss"@
    } else {
        "_cos"@
    }
}

/// The tag of the cloud source that owns the path: the segment before the first `/` of a path
/// that starts with `_`, else the tag inferred.
pub open spec fn owner_tag(path: Seq<char>) -> Seq<char> {
    if path.len() > 0 && path[0] == '_' {
        match first_index_of(path, '/') {
            Some(i) => path.subrange(0, i),
            None => path,
        }
    } else {
        inferred_tag(path)
    }
}

/// The fragments that the magics hold for the provider family `cloud`, in the magics' order,
/// without the empty ones.
pub open spec fn magic_fragments(magics: Seq<CloudMagicView>, cloud: Seq<char>) -> Seq<Seq<char>>
    decreases magics.len(),
{
    if magics.len() == 0 {
        Seq::empty()
    } else {
        let rest = magic_fragments(magics.drop_last(), cloud);
        let m = magics.last();
        if m.cloud_cfg.contains_key(cloud) && m.cloud_cfg[cloud].len() > 0 {
            rest.push(m.cloud_cfg[cloud])
        } else {
            rest
        }
    }
}

/// The parts of the address's query: the key's own query, then the magics' fragments where the
/// tag's bucket is known and has a provider family.
pub open spec fn query_parts(
    row: Map<Seq<char>, BucketSourceView>,
    tag: Seq<char>,
    query: Seq<char>,
    magics: Seq<CloudMagicView>,
) -> Seq<Seq<char>> {
    let own = if query.len() > 0 {
        seq![query]
    } else {
        Seq::empty()
    };
    if row.contains_key(tag) && row[tag].cloud is Some {
        own + magic_fragments(magics, row[tag].cloud.unwrap())
    } else {
        own
    }
}

/// The host of the address: the CDN domain of the tag's bucket, empty where there is none.
pub open spec fn host_of(row: Map<Seq<char>, BucketSourceView>, tag: Seq<char>) -> Seq<char> {
    if row.contains_key(tag) {
        match row[tag].cdn_domain {
            Some(domain) => domain,
            None => Seq::empty(),
        }
    } else {
        Seq::empty()
    }
}

/// The public address of the object that `key` names.
pub open spec fn resolved(
    row: Map<Seq<char>, BucketSourceView>,
    key: Seq<char>,
    magics: Seq<CloudMagicView>,
) -> Seq<char> {
    if passes_through(key) {
        key
    } else {
        let (path, query) = path_and_query(stripped(key));
        let tag = owner_tag(path);
        let parts = query_parts(row, tag, query, magics);
        let base = "https://"@ + host_of(row, tag) + seq!['/'] + path;
        if parts.len() == 0 {
            base
        } else {
            base + seq!['?'] + joined(parts, seq!['&'])
        }
    }
}

/// The tag of the cloud source that owns the path.
fn owner_tag_of(path: &str) -> (r: String)
    ensures
        r@ == owner_tag(path@),
{
    if starts_with_char(path, '_') {
        match find_char(path, '/') {
            Some(i) => String::from_str(path.substring_char(0, i)),
            None => String::from_str(path),
        }
    } else if contains(path, "cos") {
        String::from_str("_cos")
    } else if contains(path, "tos") {
        String::from_str("_tos")
    } else if contains(path, "oss") {
        String::from_str("_oss")
    } else {
        String::from_str("_cos")
    }
}

/// The public address of the object that `key` names, on the CDN domain of its bucket in the
/// cloud source that the key is tagged with, with the fragments of `magics` for that bucket's
/// provider family in its query. The key itself comes back where it holds a character that is
/// not ASCII or begins with `http` or `wxfile`. A tag that `branch_cloud_source` does not hold
/// gives an address with an empty host.
pub fn resolve(branch_cloud_source: &StrMap<BucketSource>, key: &str, magics: &[&CloudMagic]) -> (r:
    String)
    ensures
        r@ == resolved(branch_cloud_source@, key@, magics.deep_view()),
{
    if !key.is_ascii() {
        return String::from_str(key);
    }
    if starts_with(key, "http") || starts_with(key, "wxfile") {
        return String::from_str(key);
    }
    let key = if starts_with_char(key, '/') {
        let n = key.unicode_len();
        key.substring_char(1, n)
    } else {
        key
    };
    let (path, query) = match split_once(key, '?') {
        Some((path, query)) => (path, query),
        None => (key, ""),
    };
    proof {
        reveal_strlit("");
        assert(""@ =~= Seq::<char>::empty());
    }
    let tag = owner_tag_of(path);
    let found = branch_cloud_source.get(tag.as_str());

    let mut queries: Vec<String> = Vec::new();
    if query.unicode_len() > 0 {
        queries.push(String::from_str(query));
    }
    let ghost own = queries.deep_view();
    proof {
        assert(own =~= if query@.len() > 0 {
            seq![query@]
        } else {
            Seq::<Seq<char>>::empty()
        });
    }
    if let Some(bucket_source) = found {
        if let Some(cloud) = &bucket_source.cloud {
            let mut i: usize = 0;
            proof {
                assert(magics.deep_view().take(0) =~= Seq::<CloudMagicView>::empty());
                assert(queries.deep_view() =~= own + Seq::<Seq<char>>::empty());
            }
            while i < magics.len()
                invariant
                    i <= magics.len(),
                    queries.deep_view() == own + magic_fragments(
                        magics.deep_view().take(i as int),
                        cloud@,
                    ),
                decreases magics.len() - i,
            {
                let ghost before = queries.deep_view();
                proof {
                    let next = magics.deep_view().take(i + 1);
                    assert(next.drop_last() =~= magics.deep_view().take(i as int));
                    assert(next.last() == magics[i as int]@);
                }
                if let Some(q) = magics[i].get_magic(cloud.as_str()) {
                    if q.unicode_len() > 0 {
                        queries.push(String::from_str(q));
                        proof {
                            assert(queries.deep_view() =~= before.push(q@));
                            assert(before.push(q@) =~= own + magic_fragments(
                                magics.deep_view().take(i as int),
                                cloud@,
                            ).push(q@));
                        }
                    }
                }
                i += 1;
            }
            proof {
                assert(magics.deep_view().take(i as int) =~= magics.deep_view());
            }
        }
    }
    let host = match found {
        Some(bucket_source) => match &bucket_source.cdn_domain {
            Some(domain) => domain.as_str(),
            None => "",
        },
        None => "",
    };
    proof {
        reveal_strlit("/");
        reveal_strlit("?");
        reveal_strlit("&");
        assert("/"@ =~= seq!['/']);
        assert("?"@ =~= seq!['?']);
        assert("&"@ =~= seq!['&']);
    }
    let base = String::from_str("https://").concat(host).concat("/").concat(path);
    if queries.len() == 0 {
        base
    } else {
        let all = join(&queries, "&");
        base.concat("?").concat(all.as_str())
    }
}

} // verus!
