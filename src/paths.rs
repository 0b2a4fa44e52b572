use vstd::prelude::*;

verus! {

/// Directory prefix under which thumbnails are written.
pub const IMAGE_DIR: &'static str = "./images/";

/// The padded URL-safe base64 text of the UTF-8 bytes of `s`.
pub uninterp spec fn url_safe_b64(s: Seq<char>) -> Seq<char>;

/// The file a song's thumbnail goes to: `{base}{b64(name)}@{id}.jpg`.
pub open spec fn path_of(base: Seq<char>, name: Seq<char>, id: Seq<char>) -> Seq<char> {
    base + url_safe_b64(name) + seq!['@'] + id + seq!['.', 'j', 'p', 'g']
}

/// Relies on base64's `Engine::encode` with the `URL_SAFE` engine (padded,
/// `-` and `_` alphabet): its output depends on the input bytes alone.
#[verifier::external_body]
fn url_safe_encode(s: &str) -> (r: String)
    ensures
        r@ == url_safe_b64(s@),
{
    base64::Engine::encode(&base64::engine::general_purpose::URL_SAFE, s.as_bytes())
}

/// Target path of the thumbnail of the song named `name` with id `id`.
pub fn target_path(base_dir: &str, name: &str, id: &str) -> (r: String)
    ensures
        r@ == path_of(base_dir@, name@, id@),
{
    let encoded = url_safe_encode(name);
    let mut r = String::from_str(base_dir);
    r.append(encoded.as_str());
    r.append("@");
    r.append(id);
    r.append(".jpg");
    proof {
        reveal_strlit("@");
        reveal_strlit(".jpg");
    }
    r
}

/// The same name and id always give the same path.
pub proof fn lemma_path_deterministic(
    base1: Seq<char>, name1: Seq<char>, id1: Seq<char>,
    base2: Seq<char>, name2: Seq<char>, id2: Seq<char>,
)
    requires
        base1 == base2,
        name1 == name2,
        id1 == id2,
    ensures
        path_of(base1, name1, id1) == path_of(base2, name2, id2),
{
}

/// Two songs with the same name but different ids never share a path.
pub proof fn lemma_path_distinct_ids(base: Seq<char>, name: Seq<char>, id1: Seq<char>, id2: Seq<char>)
    requires
        id1 != id2,
    ensures
        path_of(base, name, id1) != path_of(base, name, id2),
{
    let pre = base + url_safe_b64(name) + seq!['@'];
    let suf = seq!['.', 'j', 'p', 'g'];
    let p1 = path_of(base, name, id1);
    let p2 = path_of(base, name, id2);
    assert(p1 == pre + id1 + suf);
    assert(p2 == pre + id2 + suf);
    if id1.len() == id2.len() {
        assert(!(id1 =~= id2));
        let k = choose|k: int| 0 <= k < id1.len() && id1[k] != id2[k];
        assert(p1[pre.len() + k] == id1[k]);
        assert(p2[pre.len() + k] == id2[k]);
    } else {
        assert(p1.len() != p2.len());
    }
}

} // verus!
