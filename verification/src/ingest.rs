//! The path under which the runner accepts change-feed batches for a mapping.
use vstd::prelude::*;

use crate::sql_text::strip_all_suffix;

verus! {

/// The path under which the runner accepts change-feed batches for one mapping.
pub open spec fn ingest_path_spec(mapping_id: Seq<char>) -> Seq<char> {
    "/ingest/"@ + mapping_id
}

/// The URL of a mapping's ingest path on the given base URL (trailing `/`s of the base
/// dropped).
pub open spec fn ingest_url_spec(base_url: Seq<char>, mapping_id: Seq<char>) -> Seq<char> {
    strip_all_suffix(base_url, "/"@) + ingest_path_spec(mapping_id)
}

/// The ingest path of one mapping.
pub struct MappingIngestPath<'a> {
    mapping_id: &'a str,
}

impl<'a> MappingIngestPath<'a> {
    pub closed spec fn mapping_id_spec(&self) -> Seq<char> {
        self.mapping_id@
    }

    pub fn new(mapping_id: &'a str) -> (r: Self)
        ensures
            r.mapping_id_spec() == mapping_id@,
    {
        MappingIngestPath { mapping_id }
    }

    /// `/ingest/<mapping id>`.
    pub fn render(&self) -> (r: String)
        ensures
            r@ == ingest_path_spec(self.mapping_id_spec()),
    {
        let mut s = String::from_str("/ingest/");
        s.append(self.mapping_id);
        s
    }

    /// The path appended to `base_url` without its trailing slashes.
    pub fn to_url(&self, base_url: &str) -> (r: String)
        ensures
            r@ == ingest_url_spec(base_url@, self.mapping_id_spec()),
    {
        let v = crate::text::chars_of(base_url);
        let slash = crate::text::chars_of("/");
        let base = crate::sql_text::trim_end_matches(&v, &slash);
        let mut s = crate::text::string_of(&base);
        s.append(self.render().as_str());
        s
    }
}

/// The ingest URL of a mapping on a base URL.
pub fn render_mapping_ingest_url(base_url: &str, mapping_id: &str) -> (r: String)
    ensures
        r@ == ingest_url_spec(base_url@, mapping_id@),
{
    MappingIngestPath::new(mapping_id).to_url(base_url)
}

/// A base URL with a trailing `/` gives the same ingest URL as the base without it.
pub proof fn lemma_ingest_url_ignores_trailing_slash(base_url: Seq<char>, mapping_id: Seq<char>)
    ensures
        ingest_url_spec(base_url + "/"@, mapping_id) == ingest_url_spec(base_url, mapping_id),
{
    let b = base_url + "/"@;
    reveal_strlit("/");
    assert(crate::text::ends_with(b, "/"@)) by {
        assert(b.skip(b.len() - 1) =~= "/"@);
    }
    assert(b.take(b.len() - 1) =~= base_url);
}

/// Every ingest URL ends with the mapping's ingest path, after a base without a trailing `/`.
pub proof fn lemma_ingest_url_shape(base_url: Seq<char>, mapping_id: Seq<char>)
    ensures
        crate::text::ends_with(
            ingest_url_spec(base_url, mapping_id),
            ingest_path_spec(mapping_id),
        ),
        !crate::text::ends_with(strip_all_suffix(base_url, "/"@), "/"@),
    decreases base_url.len(),
{
    let u = ingest_url_spec(base_url, mapping_id);
    let p = ingest_path_spec(mapping_id);
    assert(u.skip(u.len() - p.len()) =~= p);
    reveal_strlit("/");
    if crate::text::ends_with(base_url, "/"@) {
        lemma_ingest_url_shape(base_url.take(base_url.len() - 1), mapping_id);
    }
}

} // verus!
