//! The command line: `[-s SIZE] input.stl output.png`, with `-h`/`--help`
//! and `-V`/`--version`, options and file names in any order.

use vstd::prelude::*;

verus! {

/// The thumbnail size used when no `-s` is given.
pub const DEFAULT_SIZE: usize = 256;

/// The largest thumbnail size accepted.
pub const MAX_SIZE: usize = 4096;

/// What the command line asks for.
#[derive(Debug, PartialEq, Eq)]
pub enum Action {
    /// Print the usage text and exit successfully.
    Help,
    /// Print the version and exit successfully.
    Version,
    /// A `-s` without a size from 1 to [`MAX_SIZE`]: a usage error.
    BadSize,
    /// Not exactly two file names: a usage error.
    Usage,
    /// Render the file named by argument `input` into the file named by
    /// argument `output` (both positions in the argument list), at `size`.
    Render { size: usize, input: usize, output: usize },
}

pub open spec fn help_short() -> Seq<u8> {
    seq![45u8, 104]
}

pub open spec fn help_long() -> Seq<u8> {
    seq![45u8, 45, 104, 101, 108, 112]
}

pub open spec fn version_short() -> Seq<u8> {
    seq![45u8, 86]
}

pub open spec fn version_long() -> Seq<u8> {
    seq![45u8, 45, 118, 101, 114, 115, 105, 111, 110]
}

pub open spec fn size_short() -> Seq<u8> {
    seq![45u8, 115]
}

pub open spec fn size_long() -> Seq<u8> {
    seq![45u8, 45, 115, 105, 122, 101]
}

/// The value of a string of decimal digits.
pub open spec fn digits_value(s: Seq<u8>) -> int
    decreases s.len(),
{
    if s.len() == 0 {
        0
    } else {
        digits_value(s.drop_last()) * 10 + (s.last() - 48)
    }
}

pub open spec fn all_digits(s: Seq<u8>) -> bool {
    forall|k: int| 0 <= k < s.len() ==> 48 <= #[trigger] s[k] <= 57
}

/// The size that an argument names: `usize::from_str` reads an optional `+`
/// and one or more digits; the size must lie between 1 and [`MAX_SIZE`].
pub open spec fn size_value(s: Seq<u8>) -> Option<int> {
    let u = if s.len() > 0 && s[0] == 43 {
        s.drop_first()
    } else {
        s
    };
    if u.len() > 0 && all_digits(u) && 1 <= digits_value(u) <= MAX_SIZE {
        Some(digits_value(u))
    } else {
        None
    }
}

/// What the arguments from position `i` on ask for, given the size and the
/// positions of the file names seen so far.
pub open spec fn scan_args(args: Seq<Seq<u8>>, i: int, size: int, files: Seq<usize>) -> Action
    decreases args.len() - i,
{
    if i < 0 || i >= args.len() {
        if files.len() == 2 {
            Action::Render { size: size as usize, input: files[0], output: files[1] }
        } else {
            Action::Usage
        }
    } else {
        let a = args[i];
        if a == help_short() || a == help_long() {
            Action::Help
        } else if a == version_short() || a == version_long() {
            Action::Version
        } else if a == size_short() || a == size_long() {
            if i + 1 < args.len() && size_value(args[i + 1]) is Some {
                scan_args(args, i + 2, size_value(args[i + 1])->Some_0, files)
            } else {
                Action::BadSize
            }
        } else {
            scan_args(args, i + 1, size, files.push(i as usize))
        }
    }
}

/// The texts of the arguments.
pub open spec fn arg_texts(args: Seq<Vec<u8>>) -> Seq<Seq<u8>> {
    args.map_values(|a: Vec<u8>| a@)
}

/// Whether `a` is the word `w`.
fn is_word(a: &Vec<u8>, w: &[u8]) -> (r: bool)
    ensures
        r == (a@ == w@),
{
    if a.len() != w.len() {
        return false;
    }
    let mut k: usize = 0;
    while k < w.len()
        invariant
            a@.len() == w@.len(),
            k <= w@.len(),
            forall|m: int| 0 <= m < k ==> a@[m] == w@[m],
        decreases w@.len() - k,
    {
        if a[k] != w[k] {
            return false;
        }
        k = k + 1;
    }
    assert(a@ =~= w@);
    true
}

/// Reads a thumbnail size argument.
pub fn parse_size(s: &Vec<u8>) -> (r: Option<usize>)
    ensures
        match r {
            Some(v) => size_value(s@) == Some(v as int),
            None => size_value(s@) is None,
        },
{
    let len = s.len();
    let start: usize = if len > 0 && s[0] == 43 {
        1
    } else {
        0
    };
    let ghost u = if s@.len() > 0 && s@[0] == 43 {
        s@.drop_first()
    } else {
        s@
    };
    assert(u =~= s@.skip(start as int));
    if start == len {
        return None;
    }
    let cap: usize = 10000;
    let mut v: usize = 0;
    let mut k = start;
    while k < len
        invariant
            start <= k <= len,
            len == s@.len(),
            cap == 10000,
            u =~= s@.skip(start as int),
            u == (if s@.len() > 0 && s@[0] == 43 {
                s@.drop_first()
            } else {
                s@
            }),
            u.len() > 0,
            all_digits(u.take(k - start)),
            v == if digits_value(u.take(k - start)) < cap {
                digits_value(u.take(k - start))
            } else {
                cap as int
            },
            digits_value(u.take(k - start)) >= 0,
        decreases len - k,
    {
        let c = s[k];
        if c < 48 || c > 57 {
            assert(u[k - start] == c);
            assert(!all_digits(u));
            return None;
        }
        let ghost p = u.take(k - start);
        let ghost q = u.take(k - start + 1);
        assert(q.drop_last() =~= p);
        assert(q.last() == c);
        let d = (c - 48) as usize;
        v = if v >= 1000 {
            cap
        } else {
            let w = v * 10 + d;
            if w < cap {
                w
            } else {
                cap
            }
        };
        k = k + 1;
    }
    assert(u.take(len - start) =~= u);
    if 1 <= v && v <= MAX_SIZE {
        Some(v)
    } else {
        None
    }
}

/// Reads the command line (the arguments after the program name).
pub fn parse_args(args: &Vec<Vec<u8>>) -> (a: Action)
    ensures
        a == scan_args(arg_texts(args@), 0, DEFAULT_SIZE as int, Seq::empty()),
{
    let ghost texts = arg_texts(args@);
    let h: [u8; 2] = [45, 104];
    let help: [u8; 6] = [45, 45, 104, 101, 108, 112];
    let vs: [u8; 2] = [45, 86];
    let version: [u8; 9] = [45, 45, 118, 101, 114, 115, 105, 111, 110];
    let s: [u8; 2] = [45, 115];
    let size_word: [u8; 6] = [45, 45, 115, 105, 122, 101];
    assert(h@ =~= help_short() && help@ =~= help_long() && vs@ =~= version_short() && version@
        =~= version_long() && s@ =~= size_short() && size_word@ =~= size_long());
    let n = args.len();
    let mut size: usize = DEFAULT_SIZE;
    let mut files: Vec<usize> = Vec::new();
    let mut i: usize = 0;
    while i < n
        invariant
            n == args@.len(),
            texts == arg_texts(args@),
            texts.len() == n,
            i <= n,
            h@ == help_short() && help@ == help_long() && vs@ == version_short() && version@
                == version_long() && s@ == size_short() && size_word@ == size_long(),
            scan_args(texts, 0, DEFAULT_SIZE as int, Seq::empty()) == scan_args(
                texts,
                i as int,
                size as int,
                files@,
            ),
        decreases n - i,
    {
        let a = &args[i];
        assert(texts[i as int] == a@);
        if is_word(a, h.as_slice()) || is_word(a, help.as_slice()) {
            return Action::Help;
        }
        if is_word(a, vs.as_slice()) || is_word(a, version.as_slice()) {
            return Action::Version;
        }
        if is_word(a, s.as_slice()) || is_word(a, size_word.as_slice()) {
            if i + 1 >= n {
                return Action::BadSize;
            }
            assert(texts[i + 1] == args@[i + 1]@);
            match parse_size(&args[i + 1]) {
                None => {
                    return Action::BadSize;
                },
                Some(v) => {
                    size = v;
                    i = i + 2;
                },
            }
        } else {
            files.push(i);
            i = i + 1;
        }
    }
    if files.len() == 2 {
        Action::Render { size, input: files[0], output: files[1] }
    } else {
        Action::Usage
    }
}

} // verus!

verus! {

/// Whether `a` is one of the option words `-h`, `--help`, `-V`,
/// `--version`, `-s` and `--size`.
pub open spec fn is_option_word(a: Seq<u8>) -> bool {
    ||| a == help_short() || a == help_long()
    ||| a == version_short() || a == version_long()
    ||| a == size_short() || a == size_long()
}

/// The positions `i`, `i + 1`, ..., `j - 1`.
pub open spec fn positions(i: int, j: int) -> Seq<usize> {
    Seq::new((j - i) as nat, |k: int| (i + k) as usize)
}

proof fn lemma_scan_plain(args: Seq<Seq<u8>>, i: int, j: int, size: int, files: Seq<usize>)
    requires
        0 <= i <= j <= args.len(),
        forall|k: int| i <= k < j ==> !is_option_word(#[trigger] args[k]),
    ensures
        scan_args(args, i, size, files) == scan_args(args, j, size, files + positions(i, j)),
    decreases j - i,
{
    if i < j {
        assert(!is_option_word(args[i]));
        lemma_scan_plain(args, i + 1, j, size, files.push(i as usize));
        assert(files.push(i as usize) + positions(i + 1, j) =~= files + positions(i, j));
    } else {
        assert(files + positions(i, j) =~= files);
    }
}

/// Without any option, the arguments are the file names: exactly two of
/// them are read as input then output, at the default size; any other
/// number is a usage error.
pub proof fn law_plain_arguments_are_the_files(args: Seq<Seq<u8>>)
    requires
        forall|k: int| 0 <= k < args.len() ==> !is_option_word(#[trigger] args[k]),
    ensures
        scan_args(args, 0, DEFAULT_SIZE as int, Seq::empty()) == (if args.len() == 2 {
            Action::Render { size: DEFAULT_SIZE, input: 0, output: 1 }
        } else {
            Action::Usage
        }),
{
    lemma_scan_plain(args, 0, args.len() as int, DEFAULT_SIZE as int, Seq::empty());
    let f = Seq::<usize>::empty() + positions(0, args.len() as int);
    if args.len() == 2 {
        assert(f[0] == 0 && f[1] == 1);
    }
}

/// A `-s SIZE` pair may stand before, between or after the two file names:
/// the names are the arguments that are neither the option nor its value,
/// in order, and the size is the value's.
pub proof fn law_size_option_between_files(f1: Seq<Seq<u8>>, v: Seq<u8>, f2: Seq<Seq<u8>>)
    requires
        forall|k: int| 0 <= k < f1.len() ==> !is_option_word(#[trigger] f1[k]),
        forall|k: int| 0 <= k < f2.len() ==> !is_option_word(#[trigger] f2[k]),
        (size_value(v) is Some),
        f1.len() + f2.len() == 2,
    ensures
        scan_args(f1 + seq![size_short(), v] + f2, 0, DEFAULT_SIZE as int, Seq::empty())
            == (Action::Render {
            size: size_value(v)->Some_0 as usize,
            input: if f1.len() == 0 {
                2
            } else {
                0
            },
            output: if f1.len() == 2 {
                1
            } else {
                3
            },
        }),
{
    let args = f1 + seq![size_short(), v] + f2;
    let m = f1.len() as int;
    let n = args.len() as int;
    assert forall|k: int| 0 <= k < m implies !is_option_word(#[trigger] args[k]) by {
        assert(args[k] == f1[k]);
    }
    assert forall|k: int| m + 2 <= k < n implies !is_option_word(#[trigger] args[k]) by {
        assert(args[k] == f2[k - m - 2]);
    }
    lemma_scan_plain(args, 0, m, DEFAULT_SIZE as int, Seq::empty());
    let before = Seq::<usize>::empty() + positions(0, m);
    assert(args[m] == size_short());
    assert(args[m + 1] == v);
    assert(size_short()[1] != help_short()[1] && size_short()[1] != version_short()[1]);
    assert(size_short().len() != help_long().len() && size_short().len()
        != version_long().len());
    let sv = size_value(v)->Some_0;
    assert(scan_args(args, m, DEFAULT_SIZE as int, before) == scan_args(args, m + 2, sv, before));
    lemma_scan_plain(args, m + 2, n, sv, before);
    let f = before + positions(m + 2, n);
    assert(f.len() == 2);
    if m == 0 {
        assert(f[0] == 2 && f[1] == 3);
    } else if m == 1 {
        assert(f[0] == 0 && f[1] == 3);
    } else {
        assert(f[0] == 0 && f[1] == 1);
    }
}

} // verus!
