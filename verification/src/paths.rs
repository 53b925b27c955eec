//! Deterministic on-disk locations for derivatives.  The relative path of a
//! derivative is a pure function of the request, so identical requests map
//! to the identical file forever, and distinct requests are proved to map
//! to distinct files.
use crate::codec::{encode, token_spec};
use crate::request::{valid_model, CachedImage, CachedImageModel, CachedImageOption};
use vstd::prelude::*;

verus! {

/// The file extension of a derivative: resized images are stored as WebP,
/// blur previews as vector graphics.
pub open spec fn ext_spec(o: CachedImageOption) -> Seq<char> {
    match o {
        CachedImageOption::Resize(_) => ".webp"@,
        CachedImageOption::Blur(_) => ".svg"@,
    }
}

/// The path of a derivative relative to the cache root.
pub open spec fn rel_path_spec(m: CachedImageModel) -> Seq<char> {
    "cache/image/"@ + token_spec(m) + ext_spec(m.option)
}

/// The path of a derivative under a configured root directory.
pub open spec fn full_path_spec(root: Seq<char>, m: CachedImageModel) -> Seq<char> {
    root + seq!['/'] + rel_path_spec(m)
}

/// The first character of a token names the transform kind.
pub proof fn lemma_token_shape(m: CachedImageModel)
    ensures
        token_spec(m).len() >= 21,
        token_spec(m)[0] == (match m.option {
            CachedImageOption::Resize(_) => 'r',
            CachedImageOption::Blur(_) => 'b',
        }),
{
    match m.option {
        CachedImageOption::Resize(r) => {
            crate::codec::lemma_hex_seq_len(r.width as int, 8);
            crate::codec::lemma_hex_seq_len(r.height as int, 8);
            crate::codec::lemma_hex_seq_len(r.quality as int, 2);
            crate::codec::lemma_src_hex_len(m.src);
        },
        CachedImageOption::Blur(b) => {
            crate::codec::lemma_hex_seq_len(b.width as int, 8);
            crate::codec::lemma_hex_seq_len(b.height as int, 8);
            crate::codec::lemma_hex_seq_len(b.svg_width as int, 8);
            crate::codec::lemma_hex_seq_len(b.svg_height as int, 8);
            crate::codec::lemma_hex_seq_len(b.sigma as int, 8);
            crate::codec::lemma_src_hex_len(m.src);
        },
    }
}

/// Key discrimination: distinct valid requests are stored at distinct
/// relative paths, whatever single field they differ in.
pub proof fn lemma_path_discriminates(m1: CachedImageModel, m2: CachedImageModel)
    requires
        valid_model(m1),
        valid_model(m2),
        m1 != m2,
    ensures
        rel_path_spec(m1) != rel_path_spec(m2),
{
    reveal_strlit("cache/image/");
    reveal_strlit(".webp");
    reveal_strlit(".svg");
    let p1 = rel_path_spec(m1);
    let p2 = rel_path_spec(m2);
    let t1 = token_spec(m1);
    let t2 = token_spec(m2);
    lemma_token_shape(m1);
    lemma_token_shape(m2);
    if p1 == p2 {
        assert(p1[12] == t1[0]);
        assert(p2[12] == t2[0]);
        let same_kind = (m1.option is Resize && m2.option is Resize) || (m1.option is Blur
            && m2.option is Blur);
        assert(same_kind);
        assert(ext_spec(m1.option) == ext_spec(m2.option));
        assert(p1.len() == 12 + t1.len() + ext_spec(m1.option).len());
        assert(p2.len() == 12 + t2.len() + ext_spec(m2.option).len());
        assert(t1.len() == t2.len());
        assert(forall|i: int| 0 <= i < t1.len() ==> #[trigger] t1[i] == p1[12 + i]);
        assert(forall|i: int| 0 <= i < t2.len() ==> #[trigger] t2[i] == p2[12 + i]);
        assert(t1 =~= t2);
        crate::codec::lemma_token_injective(m1, m2);
    }
}

/// Key discrimination under a common root: distinct valid requests are
/// stored at distinct absolute paths.
pub proof fn lemma_full_path_discriminates(root: Seq<char>, m1: CachedImageModel, m2: CachedImageModel)
    requires
        valid_model(m1),
        valid_model(m2),
        m1 != m2,
    ensures
        full_path_spec(root, m1) != full_path_spec(root, m2),
{
    lemma_path_discriminates(m1, m2);
    let r1 = rel_path_spec(m1);
    let r2 = rel_path_spec(m2);
    let f1 = full_path_spec(root, m1);
    let f2 = full_path_spec(root, m2);
    if f1 == f2 {
        assert(f1.len() == root.len() + 1 + r1.len());
        assert(f2.len() == root.len() + 1 + r2.len());
        assert(r1.len() == r2.len());
        assert(forall|i: int| 0 <= i < r1.len() ==> #[trigger] r1[i] == f1[root.len() + 1 + i]);
        assert(forall|i: int| 0 <= i < r2.len() ==> #[trigger] r2[i] == f2[root.len() + 1 + i]);
        assert(r1 =~= r2);
    }
}

impl CachedImage {
    /// The path of this derivative relative to the cache root.
    pub fn get_file_path(&self) -> (r: String)
        requires
            valid_model(self@),
        ensures
            r@ == rel_path_spec(self@),
    {
        let mut out = String::from_str("cache/image/");
        let tok = encode(self);
        out.append(tok.as_str());
        match self.option {
            CachedImageOption::Resize(_) => out.append(".webp"),
            CachedImageOption::Blur(_) => out.append(".svg"),
        }
        out
    }

    /// The path of this derivative under `root`.
    pub fn get_file_path_from_root(&self, root: &str) -> (r: String)
        requires
            valid_model(self@),
        ensures
            r@ == full_path_spec(root@, self@),
    {
        let mut out = String::from_str(root);
        push_slash(&mut out);
        let rel = self.get_file_path();
        out.append(rel.as_str());
        out
    }
}

/// Appends a path separator.
fn push_slash(out: &mut String)
    ensures
        final(out)@ == old(out)@ + seq!['/'],
{
    crate::strutil::push_char(out, '/');
    proof {
        assert(out@ =~= old(out)@ + seq!['/']);
    }
}

} // verus!
