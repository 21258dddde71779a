//! Where an encode writes its result: beside the input, named
//! `<stem>.<video>_<audio>.mp4`.
use vstd::prelude::*;

use crate::codec::{codec_tag_text, EncodeRecipe};
use crate::input::{ascii_lower, spec_is_mp4};
use crate::path::{
    file_stem, join, last_dot, lemma_file_name_is_plain, lemma_file_name_of_join,
    body_floor, is_trimmed_dir, lemma_parent_is_trimmed, lemma_parent_of_join, trim_back,
    lemma_last_dot_bounds, name_extension, name_stem, parent, spec_extension, spec_file_name, spec_file_stem,
    spec_join, spec_parent,
};

verus! {

/// File name of the output: the input's stem, a dot, the codec tag and
/// ".mp4" (an input without a file name contributes an empty stem).
pub open spec fn output_file_name(input: Seq<char>, recipe: EncodeRecipe) -> Seq<char> {
    let stem = match spec_file_stem(input) {
        Some(s) => s,
        None => Seq::empty(),
    };
    stem + "."@ + codec_tag_text(recipe) + ".mp4"@
}

/// Output path: the output file name in the input's directory ("." when the
/// input has no parent).
pub open spec fn spec_default_output_path(input: Seq<char>, recipe: EncodeRecipe) -> Seq<char> {
    let dir = match spec_parent(input) {
        Some(p) => p,
        None => "."@,
    };
    spec_join(dir, output_file_name(input, recipe))
}

/// Path of the file that encoding `input` with `recipe` produces, e.g.
/// "dir/sample.mp4" gives "dir/sample.AV1_opus.mp4".
pub fn default_output_path(input: &str, recipe: EncodeRecipe) -> (r: String)
    ensures
        r@ == spec_default_output_path(input@, recipe),
{
    let mut name = match file_stem(input) {
        Some(s) => s,
        None => String::new(),
    };
    let dir = match parent(input) {
        Some(p) => p,
        None => String::from_str("."),
    };
    name.append(".");
    let tag = recipe.codec_tag();
    name.append(tag.as_str());
    name.append(".mp4");
    join(dir.as_str(), name.as_str())
}

proof fn lemma_stem_is_plain(input: Seq<char>)
    ensures
        spec_file_stem(input) matches Some(st) ==> forall|i: int| 0 <= i < st.len() ==> st[i] != '/',
{
    lemma_file_name_is_plain(input);
    if let Some(f) = spec_file_name(input) {
        lemma_last_dot_bounds(f, f.len() as int);
    }
}

/// The output path always names an MP4 file, and its final component is
/// exactly `<stem>.<tag>.mp4`.
pub proof fn lemma_output_path_is_mp4(input: Seq<char>, recipe: EncodeRecipe)
    ensures
        spec_file_name(spec_default_output_path(input, recipe)) == Some(
            output_file_name(input, recipe),
        ),
        spec_is_mp4(spec_default_output_path(input, recipe)),
{
    reveal_strlit(".");
    reveal_strlit(".mp4");
    reveal_strlit("mp4");
    reveal_strlit("..");
    reveal_strlit("_");
    reveal_strlit("H264");
    reveal_strlit("H265");
    reveal_strlit("AV1");
    reveal_strlit("aac");
    reveal_strlit("opus");
    lemma_stem_is_plain(input);
    let name = output_file_name(input, recipe);
    let dir = match spec_parent(input) {
        Some(p) => p,
        None => "."@,
    };
    let s = spec_join(dir, name);
    let n = name.len() as int;
    assert(n >= 5);
    assert(name[n - 1] == '4');
    assert(name[n - 2] == 'p');
    assert(name[n - 3] == 'm');
    assert(name[n - 4] == '.');
    assert(forall|i: int| 0 <= i < n ==> name[i] != '/');
    lemma_file_name_of_join(dir, name);
    assert(last_dot(name, n - 3) == n - 4);
    assert(last_dot(name, n - 2) == n - 4);
    assert(last_dot(name, n - 1) == n - 4);
    assert(last_dot(name, n) == n - 4);
    assert(name_extension(name) == Some(name.subrange(n - 3, n)));
    assert(name.subrange(n - 3, n) =~= "mp4"@);
    assert(spec_extension(s) == Some("mp4"@));
    assert(ascii_lower('m') == ascii_lower('m'));
}

/// The stem of the output file name is the input's stem followed by a dot
/// and the codec tag.
proof fn lemma_output_name_stem(input: Seq<char>, recipe: EncodeRecipe)
    ensures
        name_stem(output_file_name(input, recipe)) == match spec_file_stem(input) {
            Some(s) => s,
            None => Seq::empty(),
        } + "."@ + codec_tag_text(recipe),
{
    reveal_strlit(".");
    reveal_strlit(".mp4");
    reveal_strlit("_");
    reveal_strlit("H264");
    reveal_strlit("H265");
    reveal_strlit("AV1");
    reveal_strlit("aac");
    reveal_strlit("opus");
    let name = output_file_name(input, recipe);
    let n = name.len() as int;
    let stem = match spec_file_stem(input) {
        Some(s) => s,
        None => Seq::empty(),
    };
    assert(name =~= stem + "."@ + codec_tag_text(recipe) + ".mp4"@);
    assert(name[n - 1] == '4');
    assert(name[n - 2] == 'p');
    assert(name[n - 3] == 'm');
    assert(name[n - 4] == '.');
    assert(last_dot(name, n - 3) == n - 4);
    assert(last_dot(name, n - 2) == n - 4);
    assert(last_dot(name, n - 1) == n - 4);
    assert(last_dot(name, n) == n - 4);
    assert(name.subrange(0, n - 4) =~= stem + "."@ + codec_tag_text(recipe));
}

/// Encoding a file never writes over it: the output path always differs
/// from the input path.
pub proof fn lemma_output_is_not_input(input: Seq<char>, recipe: EncodeRecipe)
    ensures
        spec_default_output_path(input, recipe) != input,
{
    reveal_strlit(".");
    lemma_output_path_is_mp4(input, recipe);
    lemma_output_name_stem(input, recipe);
    let name = output_file_name(input, recipe);
    if spec_default_output_path(input, recipe) == input {
        assert(spec_file_name(input) == Some(name));
        let stem = spec_file_stem(input)->0;
        assert(spec_file_stem(input) == Some(name_stem(name)));
        assert(stem == stem + "."@ + codec_tag_text(recipe));
        assert((stem + "."@ + codec_tag_text(recipe)).len() > stem.len());
    }
}

/// The output is written in the input's directory ("." for an input
/// without one).
pub proof fn lemma_output_in_input_dir(input: Seq<char>, recipe: EncodeRecipe)
    ensures
        spec_parent(spec_default_output_path(input, recipe)) == Some(
            match spec_parent(input) {
                Some(p) => p,
                None => "."@,
            },
        ),
{
    reveal_strlit(".");
    reveal_strlit(".mp4");
    lemma_stem_is_plain(input);
    lemma_parent_is_trimmed(input);
    let name = output_file_name(input, recipe);
    let n = name.len() as int;
    assert(name[n - 1] == '4');
    assert(forall|i: int| 0 <= i < n ==> name[i] != '/') by {
        lemma_output_path_is_mp4(input, recipe);
        let dir = match spec_parent(input) {
            Some(p) => p,
            None => "."@,
        };
        lemma_file_name_is_plain(spec_join(dir, name));
    }
    if spec_parent(input) is None {
        assert(trim_back("."@, 1, body_floor("."@)) == 1);
        assert(is_trimmed_dir("."@));
    }
    let dir = match spec_parent(input) {
        Some(p) => p,
        None => "."@,
    };
    lemma_parent_of_join(dir, name);
}

} // verus!
