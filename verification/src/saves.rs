use vstd::prelude::*;
use vstd::string::*;

use crate::text::push_char;
use crate::voxel::Voxel;

verus! {

/// A saved world: its name and its voxels.
#[derive(Clone, Debug)]
pub struct SavedWorld {
    pub world_name: String,
    pub voxels: Vec<Voxel>,
}

impl SavedWorld {
    /// A world without a name and without voxels.
    pub fn new() -> (r: SavedWorld)
        ensures
            r.world_name@ == Seq::<char>::empty(),
            r.voxels@ == Seq::<Voxel>::empty(),
    {
        SavedWorld { world_name: String::new(), voxels: Vec::new() }
    }
}

/// Characters that file names may not hold: `<`, `>`, `:`, `"`, `/`, `\`,
/// `|`, `?` and `*`.
pub open spec fn is_reserved_char(c: char) -> bool {
    c == '<' || c == '>' || c == ':' || c == '"' || c == '/' || c == '\\' || c == '|' || c == '?'
        || c == '*'
}

/// Control characters: the Unicode category Cc, that is U+0000 to U+001F and
/// U+007F to U+009F.
pub open spec fn is_control_char(c: char) -> bool {
    (c as u32) <= 0x1f || (0x7f <= (c as u32) && (c as u32) <= 0x9f)
}

/// Whether `c` may stand in a world's file name.
pub open spec fn filename_char_ok(c: char) -> bool {
    !is_reserved_char(c) && !is_control_char(c)
}

/// The characters of `s` that may stand in a file name, in order.
pub open spec fn sanitized(s: Seq<char>) -> Seq<char>
    decreases s.len(),
{
    if s.len() == 0 {
        Seq::empty()
    } else if filename_char_ok(s.last()) {
        sanitized(s.drop_last()).push(s.last())
    } else {
        sanitized(s.drop_last())
    }
}

/// Whether `c` may stand in a file name.
pub fn is_filename_char(c: char) -> (r: bool)
    ensures
        r == filename_char_ok(c),
{
    let reserved = c == '<' || c == '>' || c == ':' || c == '"' || c == '/' || c == '\\' || c == '|'
        || c == '?' || c == '*';
    let code = c as u32;
    let control = code <= 0x1f || (0x7f <= code && code <= 0x9f);
    !reserved && !control
}

/// The name typed for a world, without the characters that file names may
/// not hold (reserved characters and control characters).
pub fn sanitize_filename(input: &str) -> (r: String)
    ensures
        r@ == sanitized(input@),
{
    let n = input.unicode_len();
    let mut out = String::new();
    let mut i: usize = 0;
    while i < n
        invariant
            n == input@.len(),
            i <= n,
            out@ == sanitized(input@.take(i as int)),
        decreases n - i,
    {
        let c = input.get_char(i);
        assert(input@.take(i + 1).drop_last() =~= input@.take(i as int));
        assert(input@.take(i + 1).last() == c);
        if is_filename_char(c) {
            push_char(&mut out, c);
        }
        i = i + 1;
    }
    assert(input@.take(n as int) =~= input@);
    out
}

/// The file that holds the world named `world_name`:
/// `assets/saves/<name>.bin`.
pub fn save_path(world_name: &str) -> (r: String)
    ensures
        r@ == "assets/saves/"@ + world_name@ + ".bin"@,
{
    String::from_str("assets/saves/").concat(world_name).concat(".bin")
}

/// The world name a save file stands for: the file name without its `.bin`
/// extension, for a name that has a non-empty stem before the extension.
pub open spec fn saved_name_of(file_name: Seq<char>) -> Option<Seq<char>> {
    if file_name.len() > 4 && file_name.subrange(file_name.len() - 4, file_name.len() as int)
        == ".bin"@ {
        Some(file_name.subrange(0, file_name.len() - 4))
    } else {
        None
    }
}

/// The world name a save file stands for, if it is a save file: a file named
/// `<name>.bin` with a non-empty name.
pub fn saved_world_name(file_name: &str) -> (r: Option<String>)
    ensures
        match saved_name_of(file_name@) {
            Some(n) => r matches Some(s) && s@ == n,
            None => r is None,
        },
{
    proof {
        reveal_strlit(".bin");
    }
    let n = file_name.unicode_len();
    if n <= 4 {
        return None;
    }
    let is_bin = file_name.get_char(n - 4) == '.' && file_name.get_char(n - 3) == 'b'
        && file_name.get_char(n - 2) == 'i' && file_name.get_char(n - 1) == 'n';
    let ghost tail = file_name@.subrange(n - 4, n as int);
    assert(is_bin ==> tail =~= ".bin"@);
    assert(tail == ".bin"@ ==> is_bin) by {
        if tail == ".bin"@ {
            assert(tail[0] == file_name@[n - 4]);
            assert(tail[1] == file_name@[n - 3]);
            assert(tail[2] == file_name@[n - 2]);
            assert(tail[3] == file_name@[n - 1]);
        }
    }
    if !is_bin {
        return None;
    }
    let stem = file_name.substring_char(0, n - 4);
    Some(String::from_str(stem))
}

/// The world names among the files `file_names`, in order.
pub open spec fn saved_names_of(file_names: Seq<Seq<char>>) -> Seq<Seq<char>>
    decreases file_names.len(),
{
    if file_names.len() == 0 {
        Seq::empty()
    } else {
        let rest = saved_names_of(file_names.drop_last());
        match saved_name_of(file_names.last()) {
            Some(n) => rest.push(n),
            None => rest,
        }
    }
}

/// The names of the saved worlds among the files of the save folder.
pub fn saved_names(file_names: &Vec<String>) -> (r: Vec<String>)
    ensures
        r@.map_values(|s: String| s@) == saved_names_of(file_names@.map_values(|s: String| s@)),
{
    let ghost all = file_names@.map_values(|s: String| s@);
    let mut out: Vec<String> = Vec::new();
    let mut i: usize = 0;
    while i < file_names.len()
        invariant
            i <= file_names@.len(),
            all == file_names@.map_values(|s: String| s@),
            out@.map_values(|s: String| s@) == saved_names_of(all.take(i as int)),
        decreases file_names@.len() - i,
    {
        assert(all.take(i + 1).drop_last() =~= all.take(i as int));
        assert(all.take(i + 1).last() == file_names@[i as int]@);
        let ghost before = out@;
        match saved_world_name(file_names[i].as_str()) {
            Some(name) => {
                out.push(name);
                assert(out@.map_values(|s: String| s@) =~= before.map_values(|s: String| s@).push(
                    out@[out@.len() - 1]@,
                ));
            },
            None => {},
        }
        i = i + 1;
    }
    assert(all.take(file_names@.len() as int) =~= all);
    out
}


/// A sanitized name holds only characters that file names may hold.
pub proof fn lemma_sanitized_chars_ok(s: Seq<char>)
    ensures
        forall|i: int| 0 <= i < sanitized(s).len() ==> filename_char_ok(#[trigger] sanitized(s)[i]),
        sanitized(s).len() <= s.len(),
    decreases s.len(),
{
    if s.len() > 0 {
        lemma_sanitized_chars_ok(s.drop_last());
    }
}

/// A name made of characters that file names may hold is left as it is.
pub proof fn lemma_sanitized_keeps_clean(s: Seq<char>)
    requires
        forall|i: int| 0 <= i < s.len() ==> filename_char_ok(#[trigger] s[i]),
    ensures
        sanitized(s) == s,
    decreases s.len(),
{
    if s.len() > 0 {
        lemma_sanitized_keeps_clean(s.drop_last());
        assert(s.drop_last().push(s.last()) =~= s);
    }
}

/// Sanitizing twice is sanitizing once.
pub proof fn lemma_sanitize_idempotent(s: Seq<char>)
    ensures
        sanitized(sanitized(s)) == sanitized(s),
{
    lemma_sanitized_chars_ok(s);
    lemma_sanitized_keeps_clean(sanitized(s));
}

/// The save file of a world with a non-empty name lists back as that name:
/// the file name `<name>.bin` stands for the world `name`.
pub proof fn lemma_save_file_lists_name(name: Seq<char>)
    requires
        name.len() > 0,
    ensures
        saved_name_of(name + ".bin"@) == Some(name),
{
    reveal_strlit(".bin");
    let f = name + ".bin"@;
    assert(f.subrange(f.len() - 4, f.len() as int) =~= ".bin"@);
    assert(f.subrange(0, f.len() - 4) =~= name);
}

} // verus!
