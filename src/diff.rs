use vstd::prelude::*;

use crate::classify::{is_prefix_of, starts_with};
use crate::reconcile::FileAdditions;

verus! {

/// A file of a parsed diff as plain values: its path and its added lines
/// (`None`: binary, no line diff).
pub type FileView = (Seq<char>, Option<Seq<Seq<char>>>);

/// Where a scan of a diff stands: the files finished so far, the file being
/// read, and whether its hunks have begun.
pub type ScanState = (Seq<FileView>, Option<FileView>, bool);

pub open spec fn file_header() -> Seq<char> {
    "diff --git "@
}

pub open spec fn new_path_header() -> Seq<char> {
    "+++ b/"@
}

pub open spec fn binary_header() -> Seq<char> {
    "Binary files "@
}

pub open spec fn hunk_header() -> Seq<char> {
    "@@"@
}

pub open spec fn opt_seq(o: Option<FileView>) -> Seq<FileView> {
    match o {
        Some(f) => seq![f],
        None => Seq::empty(),
    }
}

/// One line of `git diff --unified=0` output read in state `st`:
/// - `diff --git ` starts a new file;
/// - before its first hunk, `+++ b/<path>` names the file, `Binary files `
///   marks it binary and `@@` opens the hunks;
/// - inside the hunks, a line starting with `+` is an added line.
/// Every other line leaves the state as it is.
pub open spec fn scan_step(st: ScanState, line: Seq<char>) -> ScanState {
    let (files, cur, in_hunk) = st;
    if is_prefix_of(file_header(), line) {
        (files + opt_seq(cur), Some((Seq::<char>::empty(), Some(Seq::<Seq<char>>::empty()))), false)
    } else if cur is None {
        st
    } else if in_hunk {
        if line.len() > 0 && line[0] == '+' && cur.unwrap().1 is Some {
            let f = cur.unwrap();
            (files, Some((f.0, Some(f.1.unwrap().push(line.subrange(1, line.len() as int))))), true)
        } else {
            st
        }
    } else if is_prefix_of(new_path_header(), line) {
        let f = cur.unwrap();
        (files, Some((line.subrange(new_path_header().len() as int, line.len() as int), f.1)), false)
    } else if is_prefix_of(binary_header(), line) {
        let f = cur.unwrap();
        (files, Some((f.0, None)), false)
    } else if is_prefix_of(hunk_header(), line) {
        (files, cur, true)
    } else {
        st
    }
}

pub open spec fn scan(lines: Seq<Seq<char>>) -> ScanState
    decreases lines.len(),
{
    if lines.len() == 0 {
        (Seq::empty(), None, false)
    } else {
        scan_step(scan(lines.drop_last()), lines.last())
    }
}

/// The files of a diff, in order.
pub open spec fn diff_files(lines: Seq<Seq<char>>) -> Seq<FileView> {
    let st = scan(lines);
    st.0 + opt_seq(st.1)
}

pub open spec fn string_views(v: Seq<String>) -> Seq<Seq<char>> {
    v.map_values(|s: String| s@)
}

pub open spec fn file_view(f: FileAdditions) -> FileView {
    (
        f.path@,
        match f.added {
            Some(v) => Some(string_views(v@)),
            None => None,
        },
    )
}

pub open spec fn file_views(fs: Seq<FileAdditions>) -> Seq<FileView> {
    fs.map_values(|f: FileAdditions| file_view(f))
}

pub open spec fn opt_file_view(o: Option<FileAdditions>) -> Option<FileView> {
    match o {
        Some(f) => Some(file_view(f)),
        None => None,
    }
}

/// Reads the added lines of each file from the lines of `git diff
/// --unified=0` output.
pub fn parse_diff(lines: &Vec<String>) -> (r: Vec<FileAdditions>)
    ensures
        file_views(r@) == diff_files(string_views(lines@)),
{
    let file_flag = String::from_str("diff --git ");
    let path_flag = String::from_str("+++ b/");
    let binary_flag = String::from_str("Binary files ");
    let hunk_flag = String::from_str("@@");
    proof {
        reveal_strlit("+++ b/");
    }
    let ghost all = string_views(lines@);
    let mut files: Vec<FileAdditions> = Vec::new();
    let mut cur: Option<FileAdditions> = None;
    let mut in_hunk = false;
    let mut i: usize = 0;
    while i < lines.len()
        invariant
            i <= lines@.len(),
            all == string_views(lines@),
            file_flag@ == file_header(),
            path_flag@ == new_path_header(),
            path_flag@.len() == 6,
            binary_flag@ == binary_header(),
            hunk_flag@ == hunk_header(),
            (file_views(files@), opt_file_view(cur), in_hunk) == scan(all.subrange(0, i as int)),
        decreases lines@.len() - i,
    {
        let line = &lines[i];
        let ghost before = (file_views(files@), opt_file_view(cur), in_hunk);
        proof {
            assert(all.subrange(0, i + 1).drop_last() =~= all.subrange(0, i as int));
            assert(all.subrange(0, i + 1).last() == line@);
        }
        if starts_with(line, &file_flag) {
            let ghost old_files = files@;
            match cur {
                Some(f) => {
                    files.push(f);
                },
                None => {},
            }
            assert(file_views(files@) =~= before.0 + opt_seq(before.1));
            let empty: Vec<String> = Vec::new();
            cur = Some(FileAdditions { path: String::new(), added: Some(empty) });
            in_hunk = false;
            assert(string_views(empty@) =~= Seq::<Seq<char>>::empty());
        } else if cur.is_none() {
        } else if in_hunk {
            let n = line.as_str().unicode_len();
            if n > 0 && line.as_str().get_char(0) == '+' {
                let text = line.as_str().substring_char(1, n).to_string();
                match &mut cur {
                    Some(f) => {
                        match &mut f.added {
                            Some(v) => {
                                let ghost old_v = v@;
                                v.push(text);
                                assert(string_views(v@) =~= string_views(old_v).push(
                                    line@.subrange(1, line@.len() as int),
                                ));
                            },
                            None => {},
                        }
                    },
                    None => {},
                }
            }
        } else if starts_with(line, &path_flag) {
            let n = line.as_str().unicode_len();
            let p = line.as_str().substring_char(6, n).to_string();
            match &mut cur {
                Some(f) => {
                    f.path = p;
                },
                None => {},
            }
        } else if starts_with(line, &binary_flag) {
            match &mut cur {
                Some(f) => {
                    f.added = None;
                },
                None => {},
            }
        } else if starts_with(line, &hunk_flag) {
            in_hunk = true;
        }
        i = i + 1;
    }
    assert(all.subrange(0, lines@.len() as int) =~= all);
    let ghost st = (file_views(files@), opt_file_view(cur), in_hunk);
    match cur {
        Some(f) => {
            files.push(f);
        },
        None => {},
    }
    assert(file_views(files@) =~= st.0 + opt_seq(st.1));
    files
}

} // verus!
