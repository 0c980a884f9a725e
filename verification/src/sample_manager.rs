//! Where the sampler keeps its local copies of audio files: a folder, and
//! the path of a sample inside it.
use vstd::prelude::*;
use vstd::utf8::encode_utf8;
use crate::square::texts_view;
use crate::text::{ends_with, ends_with_exec, owned};

verus! {

/// A file or folder name that holds no path separator, drive colon or
/// nothing at all, so that joining it to a folder only adds a separator.
pub open spec fn plain_name(s: Seq<char>) -> bool {
    &&& s.len() > 0
    &&& forall|i: int| 0 <= i < s.len() ==> #[trigger] s[i] != '/' && s[i] != '\\' && s[i] != ':'
}

/// `joined` is `dir`, a path separator (`/`, or `\` on Windows) and `name`.
pub open spec fn separated(dir: Seq<char>, name: Seq<char>, joined: Seq<char>) -> bool {
    exists|sep: char| (sep == '/' || sep == '\\') && joined == dir + seq![sep] + name
}

/// `Path::join` of two names, read back as text. Joining a plain name to a
/// plain folder name puts the platform's separator (`/`, or `\` on
/// Windows) between them; what other inputs give (absolute paths, drive
/// prefixes, separators already in place) depends on the platform and is
/// left unsaid.
#[verifier::external_body]
fn path_join(dir: &str, name: &str) -> (r: String)
    ensures
        plain_name(dir@) && plain_name(name@) ==> separated(dir@, name@, r@),
{
    std::path::Path::new(dir).join(name).to_string_lossy().into_owned()
}

/// The folder that holds the local copies of samples.
pub struct SampleManager {
    pub samples_dir: String,
}

impl SampleManager {
    /// The path a sample of this name has in the samples folder.
    pub fn get_local_path(&self, filename: &str) -> (r: String)
        ensures
            plain_name(self.samples_dir@) && plain_name(filename@) ==> separated(self.samples_dir@, filename@, r@),
    {
        path_join(self.samples_dir.as_str(), filename)
    }
}

/// Whether a file in the samples folder is an audio sample: a `.wav` or an
/// `.mp3` file.
pub open spec fn is_audio_name(name: Seq<char>) -> bool {
    ends_with(name, ".wav"@) || ends_with(name, ".mp3"@)
}

/// The audio samples among `names`, in their order.
pub open spec fn audio_names(names: Seq<Seq<char>>) -> Seq<Seq<char>> {
    names.filter(|n: Seq<char>| is_audio_name(n))
}

proof fn lemma_audio_names_push(s: Seq<Seq<char>>, x: Seq<char>)
    ensures
        audio_names(s.push(x)) == if is_audio_name(x) { audio_names(s).push(x) } else { audio_names(s) },
{
    reveal_with_fuel(Seq::<Seq<char>>::filter, 1);
    assert(s.push(x).drop_last() =~= s);
}

/// Byte-wise lexicographic order from position `i` on: `a` comes first at
/// the first byte where they differ, or where `a` ends.
pub open spec fn bytes_le_from(a: Seq<u8>, b: Seq<u8>, i: int) -> bool
    decreases a.len() - i,
{
    if i < 0 || i >= a.len() {
        true
    } else if i >= b.len() {
        false
    } else if a[i] != b[i] {
        a[i] < b[i]
    } else {
        bytes_le_from(a, b, i + 1)
    }
}

/// The order of strings: by their UTF-8 bytes, lexicographically.
pub open spec fn name_le(a: Seq<char>, b: Seq<char>) -> bool {
    bytes_le_from(encode_utf8(a), encode_utf8(b), 0)
}

/// Names in order, each no later than any after it.
pub open spec fn names_sorted(s: Seq<Seq<char>>) -> bool {
    forall|i: int, j: int| 0 <= i < j < s.len() ==> name_le(#[trigger] s[i], #[trigger] s[j])
}

proof fn lemma_bytes_le_total(a: Seq<u8>, b: Seq<u8>, i: int)
    requires
        0 <= i,
    ensures
        bytes_le_from(a, b, i) || bytes_le_from(b, a, i),
    decreases a.len() - i,
{
    if i < a.len() && i < b.len() && a[i] == b[i] {
        lemma_bytes_le_total(a, b, i + 1);
    }
}

proof fn lemma_bytes_le_trans(a: Seq<u8>, b: Seq<u8>, c: Seq<u8>, i: int)
    requires
        0 <= i,
        bytes_le_from(a, b, i),
        bytes_le_from(b, c, i),
    ensures
        bytes_le_from(a, c, i),
    decreases a.len() - i,
{
    if i < a.len() && a[i] == b[i] && b[i] == c[i] {
        lemma_bytes_le_trans(a, b, c, i + 1);
    }
}

/// Whether `a` comes no later than `b` in the order of strings.
fn name_le_exec(a: &str, b: &str) -> (r: bool)
    ensures
        r == name_le(a@, b@),
{
    let x = a.as_bytes();
    let y = b.as_bytes();
    let mut i: usize = 0;
    while i < x.len()
        invariant
            x@ == encode_utf8(a@),
            y@ == encode_utf8(b@),
            i <= x@.len(),
            bytes_le_from(x@, y@, 0) == bytes_le_from(x@, y@, i as int),
        decreases x.len() - i,
    {
        if i >= y.len() {
            return false;
        }
        if x[i] != y[i] {
            return x[i] < y[i];
        }
        i = i + 1;
    }
    true
}

/// The audio samples among the names of the files in the samples folder
/// (see `is_audio_name`), in the order of strings (see `name_le`): each
/// kept as often as it occurs, nothing else kept.
pub fn audio_sample_names(names: &Vec<String>) -> (r: Vec<String>)
    ensures
        names_sorted(texts_view(r@)),
        texts_view(r@).to_multiset() == audio_names(texts_view(names@)).to_multiset(),
{
    let mut r: Vec<String> = Vec::new();
    let mut i: usize = 0;
    proof {
        assert(texts_view(names@.take(0)) =~= Seq::<Seq<char>>::empty());
        reveal_with_fuel(Seq::<Seq<char>>::filter, 1);
        assert(audio_names(Seq::<Seq<char>>::empty()) =~= Seq::<Seq<char>>::empty());
        assert(texts_view(r@) =~= Seq::<Seq<char>>::empty());
    }
    while i < names.len()
        invariant
            i <= names@.len(),
            names_sorted(texts_view(r@)),
            texts_view(r@).to_multiset() == audio_names(texts_view(names@.take(i as int))).to_multiset(),
        decreases names.len() - i,
    {
        let name = names[i].as_str();
        let ghost before = texts_view(names@.take(i as int));
        proof {
            assert(texts_view(names@.take(i + 1)) =~= before.push(name@));
            lemma_audio_names_push(before, name@);
        }
        if ends_with_exec(name, ".wav") || ends_with_exec(name, ".mp3") {
            let mut p: usize = 0;
            while p < r.len() && name_le_exec(r[p].as_str(), name)
                invariant
                    p <= r@.len(),
                    forall|k: int| 0 <= k < p ==> name_le(#[trigger] texts_view(r@)[k], name@),
                decreases r.len() - p,
            {
                p = p + 1;
            }
            let ghost old_r = texts_view(r@);
            proof {
                if p < r@.len() {
                    lemma_bytes_le_total(encode_utf8(old_r[p as int]), encode_utf8(name@), 0);
                }
                assert forall|j: int| p <= j < old_r.len() implies name_le(name@, #[trigger] old_r[j]) by {
                    if j > p {
                        assert(name_le(old_r[p as int], old_r[j]));
                        lemma_bytes_le_trans(encode_utf8(name@), encode_utf8(old_r[p as int]), encode_utf8(old_r[j]), 0);
                    }
                }
            }
            r.insert(p, owned(name));
            proof {
                assert(texts_view(r@) =~= old_r.insert(p as int, name@));
                vstd::seq_lib::to_multiset_insert(old_r, p as int, name@);
                vstd::seq_lib::to_multiset_build(audio_names(before), name@);
                let t = texts_view(r@);
                assert forall|a: int, b: int| 0 <= a < b < t.len() implies name_le(#[trigger] t[a], #[trigger] t[b]) by {
                    if b < p {
                        assert(t[a] == old_r[a] && t[b] == old_r[b]);
                    } else if b == p {
                        assert(t[a] == old_r[a]);
                    } else if a == p {
                        assert(t[b] == old_r[b - 1]);
                    } else if a < p {
                        assert(t[a] == old_r[a] && t[b] == old_r[b - 1]);
                    } else {
                        assert(t[a] == old_r[a - 1] && t[b] == old_r[b - 1]);
                    }
                }
            }
        }
        i = i + 1;
    }
    proof {
        assert(names@.take(names@.len() as int) =~= names@);
    }
    r
}

} // verus!
