//! File names: where a name splits into stem and extension, which extensions mark an
//! image, and how exported crops, failure messages and textures are named.
//!
//! A file name here is the last component of a path, as a directory lists it: it
//! holds no separator. Paths themselves are carried as opaque strings.

use vstd::prelude::*;
use vstd::string::*;

verus! {

/// The position of the last `.` in `name`, or -1 where it holds none.
pub open spec fn last_dot(name: Seq<char>) -> int
    decreases name.len(),
{
    if name.len() == 0 {
        -1
    } else if name.last() == '.' {
        name.len() - 1
    } else {
        last_dot(name.drop_last())
    }
}

/// The extension of a file name: what follows its last `.`, provided that `.` is not
/// the name's first character (a name such as `.hidden` has no extension).
pub open spec fn extension_of(name: Seq<char>) -> Option<Seq<char>> {
    if last_dot(name) > 0 {
        Some(name.subrange(last_dot(name) + 1, name.len() as int))
    } else {
        None
    }
}

/// The stem of a file name: what precedes the `.` of its extension, or the whole name
/// where it has no extension.
pub open spec fn stem_of(name: Seq<char>) -> Seq<char> {
    if last_dot(name) > 0 {
        name.subrange(0, last_dot(name))
    } else {
        name
    }
}

/// `last_dot` is the one position that holds a `.` and has none after it.
pub proof fn lemma_last_dot(name: Seq<char>)
    ensures
        -1 <= last_dot(name) < name.len(),
        last_dot(name) >= 0 ==> name[last_dot(name)] == '.',
        forall|j: int| last_dot(name) < j < name.len() ==> name[j] != '.',
    decreases name.len(),
{
    if name.len() > 0 && name.last() != '.' {
        let shorter = name.drop_last();
        lemma_last_dot(shorter);
        assert forall|j: int| last_dot(name) < j < name.len() implies name[j] != '.' by {
            if j < shorter.len() {
                assert(shorter[j] == name[j]);
            }
        }
    }
}

/// A `.` with no `.` after it is the last one.
pub proof fn lemma_last_dot_found(name: Seq<char>, i: int)
    requires
        0 <= i < name.len(),
        name[i] == '.',
        forall|j: int| i < j < name.len() ==> name[j] != '.',
    ensures
        last_dot(name) == i,
{
    lemma_last_dot(name);
}

/// A name with an extension is its stem, a `.` and its extension, and the extension
/// holds no `.`; the stem is never empty.
pub proof fn lemma_name_splits(name: Seq<char>)
    requires
        extension_of(name) is Some,
    ensures
        name == stem_of(name) + seq!['.'] + extension_of(name)->0,
        stem_of(name).len() > 0,
        !extension_of(name)->0.contains('.'),
{
    lemma_last_dot(name);
    assert(name =~= stem_of(name) + seq!['.'] + extension_of(name)->0);
}

/// Where to split `name`: the position of its last `.`, if it has one.
pub fn find_last_dot(name: &str) -> (found: Option<usize>)
    ensures
        match found {
            Some(i) => i == last_dot(name@),
            None => last_dot(name@) == -1,
        },
{
    let mut i: usize = name.unicode_len();
    while i > 0
        invariant
            i <= name@.len(),
            forall|j: int| i <= j < name@.len() ==> name@[j] != '.',
        decreases i,
    {
        i = i - 1;
        if name.get_char(i) == '.' {
            proof {
                lemma_last_dot_found(name@, i as int);
            }
            return Some(i);
        }
    }
    proof {
        lemma_last_dot(name@);
    }
    None
}

/// The extension of a file name, without its `.`.
pub fn file_extension(name: &str) -> (ext: Option<String>)
    ensures
        match ext {
            Some(e) => extension_of(name@) == Some(e@),
            None => extension_of(name@) is None,
        },
{
    match find_last_dot(name) {
        Some(i) => {
            if i > 0 {
                proof {
                    lemma_last_dot(name@);
                }
                let n: usize = name.unicode_len();
                Some(String::from_str(name.substring_char(i + 1, n)))
            } else {
                None
            }
        },
        None => None,
    }
}

/// The stem of a file name.
pub fn file_stem(name: &str) -> (stem: String)
    ensures
        stem@ == stem_of(name@),
{
    match find_last_dot(name) {
        Some(i) => {
            if i > 0 {
                proof {
                    lemma_last_dot(name@);
                }
                String::from_str(name.substring_char(0, i))
            } else {
                String::from_str(name)
            }
        },
        None => String::from_str(name),
    }
}

/// Whether two strings hold the same characters.
pub fn str_equal(a: &str, b: &str) -> (same: bool)
    ensures
        same == (a@ == b@),
{
    let n: usize = a.unicode_len();
    if n != b.unicode_len() {
        return false;
    }
    let mut i: usize = 0;
    while i < n
        invariant
            i <= n,
            n == a@.len(),
            n == b@.len(),
            forall|j: int| 0 <= j < i ==> a@[j] == b@[j],
        decreases n - i,
    {
        if a.get_char(i) != b.get_char(i) {
            return false;
        }
        i = i + 1;
    }
    assert(a@ =~= b@);
    true
}

/// The lower-case form of an ASCII capital; any other character is unchanged.
pub open spec fn ascii_lower(c: char) -> char {
    if 'A' <= c && c <= 'Z' {
        ((c as u8) + 32) as char
    } else {
        c
    }
}

/// Equality of two strings up to the case of their ASCII letters.
pub open spec fn same_ignoring_case(a: Seq<char>, b: Seq<char>) -> bool {
    &&& a.len() == b.len()
    &&& forall|i: int| 0 <= i < a.len() ==> ascii_lower(#[trigger] a[i]) == ascii_lower(b[i])
}

pub fn to_ascii_lower(c: char) -> (l: char)
    ensures
        l == ascii_lower(c),
{
    if 'A' <= c && c <= 'Z' {
        ((c as u8) + 32u8) as char
    } else {
        c
    }
}

pub fn eq_ignoring_case(a: &str, b: &str) -> (same: bool)
    ensures
        same == same_ignoring_case(a@, b@),
{
    let n: usize = a.unicode_len();
    if n != b.unicode_len() {
        return false;
    }
    let mut i: usize = 0;
    while i < n
        invariant
            i <= n,
            n == a@.len(),
            n == b@.len(),
            forall|j: int| 0 <= j < i ==> ascii_lower(#[trigger] a@[j]) == ascii_lower(b@[j]),
        decreases n - i,
    {
        if to_ascii_lower(a.get_char(i)) != to_ascii_lower(b.get_char(i)) {
            return false;
        }
        i = i + 1;
    }
    true
}

/// The extensions that the batch accepts as input: `png`, `jpg`, `jpeg`, in any case.
pub open spec fn is_batch_extension(ext: Seq<char>) -> bool {
    ||| same_ignoring_case(ext, "png"@)
    ||| same_ignoring_case(ext, "jpg"@)
    ||| same_ignoring_case(ext, "jpeg"@)
}

/// The extensions that the gallery shows: those of the batch and `bmp`, `tiff`, `webp`.
pub open spec fn is_gallery_extension(ext: Seq<char>) -> bool {
    ||| is_batch_extension(ext)
    ||| same_ignoring_case(ext, "bmp"@)
    ||| same_ignoring_case(ext, "tiff"@)
    ||| same_ignoring_case(ext, "webp"@)
}

/// Whether a file of this name is an input image of the batch.
pub open spec fn is_image_name(name: Seq<char>) -> bool {
    extension_of(name) matches Some(ext) && is_batch_extension(ext)
}

/// Whether a file of this name is shown in the gallery.
pub open spec fn is_gallery_name(name: Seq<char>) -> bool {
    extension_of(name) matches Some(ext) && is_gallery_extension(ext)
}

/// Whether `ext` is one of the batch's input extensions.
pub fn extension_is_supported(ext: &str) -> (ok: bool)
    ensures
        ok == is_batch_extension(ext@),
{
    eq_ignoring_case(ext, "png") || eq_ignoring_case(ext, "jpg") || eq_ignoring_case(ext, "jpeg")
}

/// Whether `ext` is one of the gallery's extensions.
pub fn extension_is_displayable(ext: &str) -> (ok: bool)
    ensures
        ok == is_gallery_extension(ext@),
{
    extension_is_supported(ext) || eq_ignoring_case(ext, "bmp") || eq_ignoring_case(ext, "tiff")
        || eq_ignoring_case(ext, "webp")
}

/// Whether the file name has one of the batch's input extensions.
pub fn is_valid_image(file_name: &str) -> (ok: bool)
    ensures
        ok == is_image_name(file_name@),
{
    match file_extension(file_name) {
        Some(ext) => extension_is_supported(ext.as_str()),
        None => false,
    }
}

/// Whether the file name has one of the gallery's extensions.
pub fn is_gallery_image(file_name: &str) -> (ok: bool)
    ensures
        ok == is_gallery_name(file_name@),
{
    match file_extension(file_name) {
        Some(ext) => extension_is_displayable(ext.as_str()),
        None => false,
    }
}

/// The character of a decimal digit.
pub open spec fn digit_char(d: nat) -> char {
    ((48 + d) as u8) as char
}

/// The decimal numeral of `n`, without leading zeros.
pub open spec fn decimal(n: nat) -> Seq<char>
    decreases n,
{
    if n < 10 {
        seq![digit_char(n)]
    } else {
        decimal(n / 10).push(digit_char(n % 10))
    }
}

fn digit_str(d: usize) -> (s: &'static str)
    requires
        d < 10,
    ensures
        s@ == seq![digit_char(d as nat)],
{
    proof {
        reveal_strlit("0");
        reveal_strlit("1");
        reveal_strlit("2");
        reveal_strlit("3");
        reveal_strlit("4");
        reveal_strlit("5");
        reveal_strlit("6");
        reveal_strlit("7");
        reveal_strlit("8");
        reveal_strlit("9");
    }
    let s = if d == 0 {
        "0"
    } else if d == 1 {
        "1"
    } else if d == 2 {
        "2"
    } else if d == 3 {
        "3"
    } else if d == 4 {
        "4"
    } else if d == 5 {
        "5"
    } else if d == 6 {
        "6"
    } else if d == 7 {
        "7"
    } else if d == 8 {
        "8"
    } else {
        "9"
    };
    assert(s@ =~= seq![digit_char(d as nat)]);
    s
}

/// Writes `n` in decimal.
pub fn decimal_string(n: usize) -> (s: String)
    ensures
        s@ == decimal(n as nat),
{
    let mut s = String::from_str(digit_str(n % 10));
    let mut rest: usize = n / 10;
    assert(decimal(n as nat) =~= if rest == 0 {
        s@
    } else {
        decimal(rest as nat) + s@
    });
    while rest > 0
        invariant
            decimal(n as nat) == if rest == 0 {
                s@
            } else {
                decimal(rest as nat) + s@
            },
        decreases rest,
    {
        let ghost before = s@;
        let ghost old_rest = rest;
        let head = String::from_str(digit_str(rest % 10));
        s = head.concat(s.as_str());
        rest = rest / 10;
        assert(decimal(old_rest as nat) + before =~= if rest == 0 {
            s@
        } else {
            decimal(rest as nat) + s@
        });
    }
    s
}

/// The path of the crop of face number `index` (counted from 1) of the image file
/// named `file_name`: `{output_dir}/{stem}_face_{index}.{extension}`.
pub open spec fn artifact_path(output_dir: Seq<char>, file_name: Seq<char>, index: nat) -> Seq<
    char,
> {
    output_dir + "/"@ + stem_of(file_name) + "_face_"@ + decimal(index) + "."@ + extension_of(
        file_name,
    )->0
}

/// The path under which the single-face naming scheme stores the crop of the image
/// file named `file_name`: `{output_dir}/clip_{file_name}`.
pub open spec fn legacy_artifact_path(output_dir: Seq<char>, file_name: Seq<char>) -> Seq<char> {
    output_dir + "/"@ + "clip_"@ + file_name
}

/// The message of a batch that stops at the file `path` for the reason `cause`.
pub open spec fn failure_message(path: Seq<char>, cause: Seq<char>) -> Seq<char> {
    "Error processing "@ + path + ": "@ + cause
}

/// The message of a batch that finds no input image.
pub open spec fn no_files_message() -> Seq<char> {
    "No valid image files found."@
}

/// The name under which the thumbnail of `path` is registered for display.
pub open spec fn texture_name(path: Seq<char>) -> Seq<char> {
    "thumb_"@ + path
}

pub fn make_artifact_path(output_dir: &str, file_name: &str, index: usize) -> (path: String)
    requires
        extension_of(file_name@) is Some,
    ensures
        path@ == artifact_path(output_dir@, file_name@, index as nat),
{
    let stem = file_stem(file_name);
    let ext = match file_extension(file_name) {
        Some(e) => e,
        None => String::new(),
    };
    let number = decimal_string(index);
    String::from_str(output_dir).concat("/").concat(stem.as_str()).concat("_face_").concat(
        number.as_str(),
    ).concat(".").concat(ext.as_str())
}

pub fn make_legacy_artifact_path(output_dir: &str, file_name: &str) -> (path: String)
    ensures
        path@ == legacy_artifact_path(output_dir@, file_name@),
{
    String::from_str(output_dir).concat("/").concat("clip_").concat(file_name)
}

pub fn make_failure_message(path: &str, cause: &str) -> (message: String)
    ensures
        message@ == failure_message(path@, cause@),
{
    String::from_str("Error processing ").concat(path).concat(": ").concat(cause)
}

pub fn make_no_files_message() -> (message: String)
    ensures
        message@ == no_files_message(),
{
    String::from_str("No valid image files found.")
}

pub fn make_texture_name(path: &str) -> (name: String)
    ensures
        name@ == texture_name(path@),
{
    String::from_str("thumb_").concat(path)
}

} // verus!
