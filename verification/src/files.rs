//! The game file scanner: walks a directory tree, takes every immediate
//! subdirectory whose name is a number as one game, and collects the
//! files under it whose extension is on the allow-list.
//!
//! The scanner works on a value representation of the tree
//! ([`FsTree`]), built by the embedding program from the real
//! filesystem.  The tree is finite by construction, so the walk needs no
//! cycle guard; guarding against symlink cycles (by tracking visited
//! canonical paths) belongs to the code that builds the tree.

use vstd::prelude::*;
use vstd::string::StrSliceExecFns;

use crate::errors::FtpError;
use crate::manager::FTPManager;
use crate::manager::GameFile;
use crate::manager::GameFileView;
use crate::text::all_digits;
use crate::text::dec_val;
use crate::text::parse_dec_bounded;

verus! {

/// ASCII lowercasing of one character.
pub open spec fn lower_char(c: char) -> char {
    if 65 <= c as u32 <= 90 {
        ((c as u32) + 32) as char
    } else {
        c
    }
}

/// ASCII lowercasing of a character sequence.
pub open spec fn lower_seq(s: Seq<char>) -> Seq<char> {
    s.map_values(|c: char| lower_char(c))
}

/// Index of the last `.` in `s`, or -1 when there is none.
pub open spec fn last_dot_index(s: Seq<char>) -> int
    decreases s.len(),
{
    if s.len() == 0 {
        -1
    } else if s.last() == '.' {
        s.len() - 1
    } else {
        last_dot_index(s.drop_last())
    }
}

/// The extension of file name `s`: what follows the last dot, provided
/// that dot exists and is not the leading character (a leading dot marks
/// a hidden file, not an extension).
pub open spec fn ext_of(s: Seq<char>) -> Option<Seq<char>> {
    if last_dot_index(s) <= 0 {
        None
    } else {
        Some(s.subrange(last_dot_index(s) + 1, s.len() as int))
    }
}

/// The transferable extensions, lowercased.
pub open spec fn is_allowed_ext(e: Seq<char>) -> bool {
    ||| e == seq!['n', 's', 'p']
    ||| e == seq!['n', 's', 'z']
    ||| e == seq!['n', 's', 'c']
    ||| e == seq!['x', 'c', 'i']
    ||| e == seq!['x', 'c', 'z']
}

/// File name `s` has an extension that case-insensitively matches the
/// allow-list.
pub open spec fn has_valid_ext(s: Seq<char>) -> bool {
    match ext_of(s) {
        Some(e) => is_allowed_ext(lower_seq(e)),
        None => false,
    }
}

/// The last dot of `s` is inside `s` (when there is one).
proof fn lemma_last_dot_index_range(s: Seq<char>)
    ensures
        -1 <= last_dot_index(s) < s.len(),
        last_dot_index(s) >= 0 ==> s[last_dot_index(s)] == '.',
    decreases s.len(),
{
    if s.len() > 0 && s.last() != '.' {
        lemma_last_dot_index_range(s.drop_last());
    }
}

/// ASCII lowercasing of one character, on its scalar value.
fn lower_u32(v: u32) -> (r: u32)
    requires
        v <= 0x10FFFF,
    ensures
        forall|c: char| c as u32 == v ==> r == lower_char(c) as u32,
{
    let r: u32 = if 65 <= v && v <= 90 {
        v + 32
    } else {
        v
    };
    proof {
        assert forall|c: char| c as u32 == v implies r == lower_char(c) as u32 by {
            if 65 <= v && v <= 90 {
                assert(lower_char(c) == ((c as u32) + 32) as char);
                assert(lower_char(c) as u32 == v + 32);
            }
        }
    }
    r
}

/// Whether file name `s` matches the extension allow-list, as
/// `has_valid_ext` describes.
pub fn is_valid_extension(s: &str) -> (r: bool)
    ensures
        r == has_valid_ext(s@),
{
    let n: usize = s.unicode_len();
    let mut last_dot: Option<usize> = None;
    let mut i: usize = 0;
    proof {
        assert(s@.take(0) =~= Seq::<char>::empty());
    }
    while i < n
        invariant
            0 <= i <= n,
            n == s@.len(),
            match last_dot {
                Some(d) => d < i && last_dot_index(s@.take(i as int)) == d,
                None => last_dot_index(s@.take(i as int)) == -1,
            },
        decreases n - i,
    {
        let c = s.get_char(i);
        proof {
            assert(s@.take(i + 1).drop_last() =~= s@.take(i as int));
            assert(s@.take(i + 1).last() == s@[i as int]);
        }
        if c == '.' {
            last_dot = Some(i);
        }
        i = i + 1;
    }
    proof {
        assert(s@.take(n as int) =~= s@);
    }
    match last_dot {
        None => false,
        Some(d) => {
            if d == 0 {
                return false;
            }
            let ghost ext = s@.subrange(d + 1, s@.len() as int);
            proof {
                lemma_last_dot_index_range(s@);
                assert(lower_seq(ext).len() == ext.len());
            }
            if n - d - 1 != 3 {
                proof {
                    assert(lower_seq(ext).len() != 3);
                }
                return false;
            }
            let l0 = lower_u32(s.get_char(d + 1) as u32);
            let l1 = lower_u32(s.get_char(d + 2) as u32);
            let l2 = lower_u32(s.get_char(d + 3) as u32);
            proof {
                assert(ext[0] == s@[d + 1] && ext[1] == s@[d + 2] && ext[2] == s@[d + 3]);
                assert(lower_seq(ext)[0] == lower_char(s@[d + 1]));
                assert(lower_seq(ext)[1] == lower_char(s@[d + 2]));
                assert(lower_seq(ext)[2] == lower_char(s@[d + 3]));
            }
            let matched = (l0 == 110 && l1 == 115 && l2 == 112)  // n s p
             || (l0 == 110 && l1 == 115 && l2 == 122)  // n s z
             || (l0 == 110 && l1 == 115 && l2 == 99)  // n s c
             || (l0 == 120 && l1 == 99 && l2 == 105)  // x c i
             || (l0 == 120 && l1 == 99 && l2 == 122);  // x c z
            proof {
                let le = lower_seq(ext);
                assert(le.len() == 3);
                assert('n' as u32 == 110 && 's' as u32 == 115 && 'p' as u32 == 112);
                assert('z' as u32 == 122 && 'c' as u32 == 99 && 'x' as u32 == 120 && 'i' as u32
                    == 105);
                if matched {
                    if l0 == 110 && l1 == 115 && l2 == 112 {
                        assert(le =~= seq!['n', 's', 'p']);
                    } else if l0 == 110 && l1 == 115 && l2 == 122 {
                        assert(le =~= seq!['n', 's', 'z']);
                    } else if l0 == 110 && l1 == 115 && l2 == 99 {
                        assert(le =~= seq!['n', 's', 'c']);
                    } else if l0 == 120 && l1 == 99 && l2 == 105 {
                        assert(le =~= seq!['x', 'c', 'i']);
                    } else {
                        assert(le =~= seq!['x', 'c', 'z']);
                    }
                } else {
                    assert(!is_allowed_ext(le)) by {
                        if is_allowed_ext(le) {
                            assert(le[0] == lower_char(s@[d + 1]) && le[1] == lower_char(
                                s@[d + 2],
                            ) && le[2] == lower_char(s@[d + 3]));
                        }
                    }
                }
            }
            matched
        },
    }
}

/// `s` is the decimal name of a game directory: nonempty, all digits,
/// and its value fits the identifier type.
pub open spec fn is_game_id_text(s: Seq<char>) -> bool {
    s.len() > 0 && all_digits(s) && dec_val(s) <= u32::MAX
}

/// Parses a directory name as a game identifier.
pub fn parse_game_id(s: &str) -> (r: Option<u32>)
    ensures
        is_game_id_text(s@) ==> (r matches Some(v) && v == dec_val(s@)),
        !is_game_id_text(s@) ==> r is None,
{
    proof {
        if all_digits(s@) {
            crate::text::lemma_dec_val_nonneg(s@);
        }
    }
    match parse_dec_bounded(s, 4294967295u64) {
        Some(v) => Some(v as u32),
        None => None,
    }
}

/// A directory tree, as the embedding program read it from disk.  `path`
/// is the file's full path as the filesystem spelled it; names and paths
/// are plain values here, so the walk below is verified.
#[derive(Debug)]
pub enum FsTree {
    File { name: String, path: String, size: u64 },
    Dir { name: String, entries: Vec<FsTree> },
}

/// The records collected from one entry of a directory named `dir_name`:
/// a matching file becomes one record whose title is `dir_name`, a
/// subdirectory is walked with its own name as the title of its files.
pub open spec fn scan_entry(e: FsTree, dir_name: Seq<char>, game_id: int) -> Seq<GameFileView>
    decreases e,
{
    match e {
        FsTree::File { name, path, size } => if has_valid_ext(name@) {
            seq![
                GameFileView {
                    game_id: game_id,
                    game_title: dir_name,
                    file_path: path@,
                    file_name: name@,
                    file_size: size as int,
                },
            ]
        } else {
            Seq::empty()
        },
        FsTree::Dir { name, entries } => scan_dir_entries(entries@, name@, game_id),
    }
}

/// The records collected from the entries of a directory named
/// `dir_name`, in order.
pub open spec fn scan_dir_entries(entries: Seq<FsTree>, dir_name: Seq<char>, game_id: int) -> Seq<
    GameFileView,
>
    decreases entries,
{
    if entries.len() == 0 {
        Seq::empty()
    } else {
        scan_dir_entries(entries.drop_last(), dir_name, game_id) + scan_entry(
            entries.last(),
            dir_name,
            game_id,
        )
    }
}

/// The records of one directory node: its entries walked with its own
/// name as title.  A plain file at this level yields nothing.
pub open spec fn dir_scan(t: FsTree, game_id: int) -> Seq<GameFileView> {
    match t {
        FsTree::File { .. } => Seq::empty(),
        FsTree::Dir { name, entries } => scan_dir_entries(entries@, name@, game_id),
    }
}

/// The records of one top-level entry of the scan root: only a
/// subdirectory whose name is a number counts, as the game it names.
pub open spec fn top_entry(e: FsTree) -> Seq<GameFileView> {
    match e {
        FsTree::File { .. } => Seq::empty(),
        FsTree::Dir { name, entries } => if is_game_id_text(name@) {
            scan_dir_entries(entries@, name@, dec_val(name@))
        } else {
            Seq::empty()
        },
    }
}

/// The records of the whole scan root, in order.
pub open spec fn scan_root_entries(entries: Seq<FsTree>) -> Seq<GameFileView>
    decreases entries,
{
    if entries.len() == 0 {
        Seq::empty()
    } else {
        scan_root_entries(entries.drop_last()) + top_entry(entries.last())
    }
}

impl FTPManager {
    /// Walks one game directory, appending every file whose extension is
    /// on the allow-list; each file's title is the name of its immediate
    /// parent directory.  Subdirectories are walked to unbounded depth.
    pub fn scan_directory(&self, dir: &FsTree, game_id: u32, game_files: &mut Vec<GameFile>)
        requires
            dir matches FsTree::Dir { .. },
        ensures
            final (game_files).deep_view() == old(game_files).deep_view() + dir_scan(
                *dir,
                game_id as int,
            ),
        decreases *dir,
    {
        match dir {
            FsTree::File { .. } => {
                proof {
                    assert(false);
                }
            },
            FsTree::Dir { name, entries } => {
                let ghost base = game_files.deep_view();
                let mut i: usize = 0;
                proof {
                    assert(entries@.take(0) =~= Seq::<FsTree>::empty());
                    assert(base + scan_dir_entries(entries@.take(0), name@, game_id as int)
                        =~= base);
                }
                while i < entries.len()
                    invariant
                        0 <= i <= entries.len(),
                        *dir == (FsTree::Dir { name: *name, entries: *entries }),
                        game_files.deep_view() == base + scan_dir_entries(
                            entries@.take(i as int),
                            name@,
                            game_id as int,
                        ),
                    decreases entries.len() - i,
                {
                    proof {
                        assert(entries@.take(i + 1).drop_last() =~= entries@.take(i as int));
                        assert(entries@.take(i + 1).last() == entries@[i as int]);
                    }
                    let ghost before = game_files.deep_view();
                    match &entries[i] {
                        FsTree::File { name: file_name, path, size } => {
                            if is_valid_extension(file_name.as_str()) {
                                game_files.push(
                                    GameFile {
                                        game_id,
                                        game_title: name.clone(),
                                        file_path: path.clone(),
                                        file_name: file_name.clone(),
                                        file_size: *size,
                                    },
                                );
                                proof {
                                    assert(game_files.deep_view() =~= before + scan_entry(
                                        entries@[i as int],
                                        name@,
                                        game_id as int,
                                    ));
                                }
                            } else {
                                proof {
                                    assert(game_files.deep_view() =~= before + scan_entry(
                                        entries@[i as int],
                                        name@,
                                        game_id as int,
                                    ));
                                }
                            }
                        },
                        FsTree::Dir { .. } => {
                            let sub = &entries[i];
                            proof {
                                assert(*sub == entries@[i as int]);
                                assert(decreases_to!(*entries => entries@[i as int]));
                                assert(decreases_to!(*dir => dir->Dir_entries));
                                assert(dir->Dir_entries == *entries);
                                assert(decreases_to!(*dir => *sub));
                            }
                            self.scan_directory(sub, game_id, game_files);
                            proof {
                                assert(dir_scan(*sub, game_id as int) == scan_entry(
                                    entries@[i as int],
                                    name@,
                                    game_id as int,
                                ));
                            }
                        },
                    }
                    proof {
                        assert(game_files.deep_view() =~= base + scan_dir_entries(
                            entries@.take(i + 1),
                            name@,
                            game_id as int,
                        ));
                    }
                    i = i + 1;
                }
                proof {
                    assert(entries@.take(entries@.len() as int) =~= entries@);
                }
            },
        }
    }

    /// Scans the game library rooted at `root`, handed in as the tree the
    /// embedding program read (`None` when the root does not exist).
    /// Every immediate subdirectory whose name is a number becomes one
    /// game; everything else at the top level is skipped.
    pub fn scan_game_files(&self, root: &Option<FsTree>) -> (r: Result<Vec<GameFile>, FtpError>)
        ensures
            match root {
                None => r matches Err(e) && e == FtpError::PathNotFound,
                Some(t) => match t {
                    FsTree::File { .. } => r matches Err(e) && e == FtpError::NotADirectory,
                    FsTree::Dir { .. } => r matches Ok(v) && v.deep_view() == dir_games(*t),
                },
            },
    {
        match root {
            None => Err(FtpError::PathNotFound),
            Some(FsTree::File { .. }) => Err(FtpError::NotADirectory),
            Some(t@ FsTree::Dir { name: _, entries }) => {
                let mut game_files: Vec<GameFile> = Vec::new();
                let mut i: usize = 0;
                proof {
                    assert(entries@.take(0) =~= Seq::<FsTree>::empty());
                    assert(game_files.deep_view() =~= scan_root_entries(entries@.take(0)));
                }
                while i < entries.len()
                    invariant
                        0 <= i <= entries.len(),
                        game_files.deep_view() == scan_root_entries(entries@.take(i as int)),
                    decreases entries.len() - i,
                {
                    proof {
                        assert(entries@.take(i + 1).drop_last() =~= entries@.take(i as int));
                        assert(entries@.take(i + 1).last() == entries@[i as int]);
                    }
                    let ghost before = game_files.deep_view();
                    match &entries[i] {
                        FsTree::File { .. } => {
                            proof {
                                assert(game_files.deep_view() =~= before + top_entry(
                                    entries@[i as int],
                                ));
                            }
                        },
                        FsTree::Dir { name: dir_name, .. } => {
                            match parse_game_id(dir_name.as_str()) {
                                Some(game_id) => {
                                    let sub = &entries[i];
                                    self.scan_directory(sub, game_id, &mut game_files);
                                    proof {
                                        assert(dir_scan(*sub, game_id as int) == top_entry(
                                            entries@[i as int],
                                        ));
                                    }
                                },
                                None => {
                                    proof {
                                        assert(game_files.deep_view() =~= before + top_entry(
                                            entries@[i as int],
                                        ));
                                    }
                                },
                            }
                        },
                    }
                    proof {
                        assert(game_files.deep_view() =~= scan_root_entries(entries@.take(i + 1)));
                    }
                    i = i + 1;
                }
                proof {
                    assert(entries@.take(entries@.len() as int) =~= entries@);
                }
                Ok(game_files)
            },
        }
    }
}

/// The records a scan of directory node `t` yields.
pub open spec fn dir_games(t: FsTree) -> Seq<GameFileView> {
    match t {
        FsTree::File { .. } => Seq::empty(),
        FsTree::Dir { name: _, entries } => scan_root_entries(entries@),
    }
}

} // verus!
