use vstd::prelude::*;
use vstd::string::{StrSliceExecFns, StringExecFns};

verus! {

/// The status `save` reports when the written file passed the strict
/// well-formedness check.
pub const SAVE_OK: i32 = 0;

/// The status `save` reports when the file was written but failed the check.
pub const SAVE_MALFORMED: i32 = 1;

/// The files a save touches, and whether the directory has to be made first.
pub struct SavePlan {
    /// The directory the document goes to.
    pub dir: String,
    /// The document's file: `{dir}/{filename}.svg`.
    pub file: String,
    /// The file beside it that receives the checker's diagnostics:
    /// `{dir}/{filename}_check`.
    pub check_file: String,
    /// Whether the directory must be created before writing.
    pub create_dir: bool,
}

/// What is left of a path or URI after its last `/`: all of it when it
/// holds no `/`.
pub open spec fn last_segment(s: Seq<char>) -> Seq<char>
    decreases s.len(),
{
    if s.len() == 0 {
        s
    } else if s.last() == '/' {
        Seq::empty()
    } else {
        last_segment(s.drop_last()).push(s.last())
    }
}

/// Plans the save of a document named `filename` into `dir`; the directory
/// is created only when it does not exist yet.
pub fn save_plan(dir: &str, filename: &str, dir_exists: bool) -> (r: SavePlan)
    ensures
        r.dir@ == dir@,
        r.file@ == dir@ + "/"@ + filename@ + ".svg"@,
        r.check_file@ == dir@ + "/"@ + filename@ + "_check"@,
        r.create_dir == !dir_exists,
{
    let mut file = String::from_str(dir);
    file.append("/");
    file.append(filename);
    file.append(".svg");
    let mut check_file = String::from_str(dir);
    check_file.append("/");
    check_file.append(filename);
    check_file.append("_check");
    SavePlan { dir: String::from_str(dir), file, check_file, create_dir: !dir_exists }
}

/// The status of a save whose file was written: `SAVE_OK` when the checker
/// found it well formed, `SAVE_MALFORMED` otherwise.
pub fn save_status(well_formed: bool) -> (r: i32)
    ensures
        r == (if well_formed {
            SAVE_OK
        } else {
            SAVE_MALFORMED
        }),
{
    if well_formed {
        SAVE_OK
    } else {
        SAVE_MALFORMED
    }
}

proof fn lemma_last_segment_from(s: Seq<char>, i: int)
    requires
        0 <= i <= s.len(),
        i == 0 || s[i - 1] == '/',
        forall|j: int| i <= j < s.len() ==> s[j] != '/',
    ensures
        last_segment(s) == s.subrange(i, s.len() as int),
    decreases s.len(),
{
    if s.len() == i {
        assert(s.subrange(i, s.len() as int) =~= Seq::<char>::empty());
        if s.len() > 0 {
            assert(s.last() == '/');
        }
    } else {
        let p = s.drop_last();
        lemma_last_segment_from(p, i);
        assert(s.subrange(i, s.len() as int) =~= p.subrange(i, p.len() as int).push(s.last()));
    }
}

/// The name of the local file that a download of `uri` is saved under: the
/// part after the last `/`.
pub fn image_file_name(uri: &str) -> (r: String)
    ensures
        r@ == last_segment(uri@),
{
    let n = uri.unicode_len();
    let mut i: usize = n;
    while i > 0 && uri.get_char(i - 1) != '/'
        invariant
            i <= n,
            n == uri@.len(),
            forall|j: int| i <= j < n ==> uri@[j] != '/',
        decreases i,
    {
        i = i - 1;
    }
    proof {
        lemma_last_segment_from(uri@, i as int);
    }
    String::from_str(uri.substring_char(i, n))
}

} // verus!
