//! User settings: frame pacing, and the font named by Neovim's `guifont`
//! option.

use vstd::prelude::*;
use vstd::string::*;

verus! {

/// How frames are paced against the display's refresh.
#[derive(Debug, Clone, Copy, PartialEq, Eq, Structural)]
pub enum VsyncMode {
    Enabled,
    Disabled,
    MailboxIfAvailable,
    /// macOS only: frames paced by the display link; other platforms ignore
    /// it.
    DisplayLink,
}

/// The operating systems whose behaviour differs.
#[derive(Debug, Clone, Copy, PartialEq, Eq, Structural)]
pub enum Platform {
    MacOs,
    Windows,
    /// Linux and every other system.
    Other,
}

/// The frame pacing a platform starts from: the display link on macOS,
/// elsewhere mailbox where the surface offers it.
pub open spec fn default_vsync(platform: Platform) -> VsyncMode {
    match platform {
        Platform::MacOs => VsyncMode::DisplayLink,
        _ => VsyncMode::MailboxIfAvailable,
    }
}

impl VsyncMode {
    /// Returns the frame pacing that `platform` starts from.
    pub fn default_for(platform: Platform) -> (m: Self)
        ensures
            m == default_vsync(platform),
    {
        match platform {
            Platform::MacOs => VsyncMode::DisplayLink,
            _ => VsyncMode::MailboxIfAvailable,
        }
    }
}

impl Default for VsyncMode {
    /// The frame pacing of Linux and Windows: mailbox where the platform has
    /// it, for the lowest latency with vsync (see `default_for` for macOS).
    fn default() -> (m: Self)
        ensures
            m == VsyncMode::MailboxIfAvailable,
    {
        VsyncMode::MailboxIfAvailable
    }
}

/// Rendering performance settings.
#[derive(Debug, Clone, Copy, PartialEq, Eq, Structural)]
pub struct PerformanceSettings {
    pub vsync: VsyncMode,
}

impl Default for PerformanceSettings {
    fn default() -> (s: Self)
        ensures
            s == (PerformanceSettings { vsync: VsyncMode::MailboxIfAvailable }),
    {
        PerformanceSettings { vsync: VsyncMode::default() }
    }
}

/// The index of the first comma of `s`, or its length.
pub open spec fn first_comma(s: Seq<char>) -> int
    decreases s.len(),
{
    if s.len() == 0 {
        0
    } else if s[0] == ',' {
        0
    } else {
        1 + first_comma(s.skip(1))
    }
}

/// The index of the last `:h` in `s`, if there is one.
pub open spec fn last_size_mark(s: Seq<char>) -> Option<int>
    decreases s.len(),
{
    if s.len() < 2 {
        None
    } else if s[s.len() - 2] == ':' && s[s.len() - 1] == 'h' {
        Some(s.len() - 2)
    } else {
        last_size_mark(s.drop_last())
    }
}

/// `s` has `:h` at `k`.
pub open spec fn mark_at(s: Seq<char>, k: int) -> bool {
    s[k] == ':' && s[k + 1] == 'h'
}

/// `s` with every escaped space (`\ `) made a plain space, from left to
/// right.
pub open spec fn unescape(s: Seq<char>) -> Seq<char>
    decreases s.len(),
{
    if s.len() == 0 {
        Seq::empty()
    } else if s.len() >= 2 && s[0] == '\\' && s[1] == ' ' {
        seq![' '] + unescape(s.skip(2))
    } else {
        seq![s[0]] + unescape(s.skip(1))
    }
}

/// The font family and size text that a `guifont` value names: only the
/// first font of a comma-separated list counts, its size follows the last
/// `:h`, and escaped spaces in the family are plain spaces. An empty value
/// names no font.
pub open spec fn guifont_of(g: Seq<char>) -> Option<(Seq<char>, Option<Seq<char>>)> {
    if g.len() == 0 {
        None
    } else {
        let f = g.take(first_comma(g));
        match last_size_mark(f) {
            Some(i) => Some((unescape(f.take(i)), Some(f.skip(i + 2)))),
            None => Some((unescape(f), None)),
        }
    }
}

proof fn lemma_first_comma(s: Seq<char>)
    ensures
        0 <= first_comma(s) <= s.len(),
        forall|k: int| 0 <= k < first_comma(s) ==> s[k] != ',',
        first_comma(s) < s.len() ==> s[first_comma(s)] == ',',
    decreases s.len(),
{
    if s.len() > 0 && s[0] != ',' {
        lemma_first_comma(s.skip(1));
        assert forall|k: int| 0 <= k < first_comma(s) implies s[k] != ',' by {
            if k > 0 {
                assert(s.skip(1)[k - 1] == s[k]);
            }
        }
    }
}

proof fn lemma_last_size_mark(s: Seq<char>)
    ensures
        match last_size_mark(s) {
            Some(i) => 0 <= i && i + 2 <= s.len() && mark_at(s, i) && forall|k: int|
                i < k && k + 1 < s.len() ==> !#[trigger] mark_at(s, k),
            None => forall|k: int| 0 <= k && k + 1 < s.len() ==> !#[trigger] mark_at(s, k),
        },
    decreases s.len(),
{
    if s.len() >= 2 && !(s[s.len() - 2] == ':' && s[s.len() - 1] == 'h') {
        let p = s.drop_last();
        lemma_last_size_mark(p);
        assert forall|k: int| 0 <= k && k + 1 < p.len() implies mark_at(p, k) == #[trigger] mark_at(s, k) by {}
        assert(!mark_at(s, s.len() - 2));
    }
}

/// The index of the first comma of `s`, or its length.
fn find_first_comma(s: &str) -> (i: usize)
    ensures
        i == first_comma(s@),
{
    proof {
        lemma_first_comma(s@);
    }
    let n = s.unicode_len();
    let mut i: usize = 0;
    while i < n
        invariant
            n == s@.len(),
            i <= n,
            i <= first_comma(s@),
            forall|k: int| 0 <= k < first_comma(s@) ==> s@[k] != ',',
            first_comma(s@) < s@.len() ==> s@[first_comma(s@)] == ',',
            0 <= first_comma(s@) <= s@.len(),
        decreases n - i,
    {
        if s.get_char(i) == ',' {
            return i;
        }
        i = i + 1;
    }
    i
}

/// The index of the last `:h` in `s`, if there is one.
fn find_size_mark(s: &str) -> (r: Option<usize>)
    ensures
        match r {
            Some(i) => last_size_mark(s@) == Some(i as int),
            None => last_size_mark(s@) is None,
        },
{
    proof {
        lemma_last_size_mark(s@);
    }
    let n = s.unicode_len();
    if n < 2 {
        return None;
    }
    let mut k: usize = n - 1;
    while k > 0
        invariant
            n == s@.len(),
            n >= 2,
            k < n,
            forall|j: int| k <= j && j + 1 < n ==> !#[trigger] mark_at(s@, j),
        decreases k,
    {
        let j = k - 1;
        if s.get_char(j) == ':' && s.get_char(j + 1) == 'h' {
            proof {
                lemma_last_size_mark(s@);
                assert(mark_at(s@, j as int));
                match last_size_mark(s@) {
                    Some(i) => {
                        if i < j {
                            assert(mark_at(s@, j as int));
                        }
                        assert(i == j);
                    },
                    None => {},
                }
            }
            return Some(j);
        }
        k = j;
    }
    None
}

/// `s` with every escaped space made a plain space.
fn unescape_spaces(s: &str) -> (out: String)
    ensures
        out@ == unescape(s@),
{
    let n = s.unicode_len();
    let mut out = String::new();
    let mut i: usize = 0;
    proof {
        assert(s@.skip(0) =~= s@);
    }
    while i < n
        invariant
            n == s@.len(),
            i <= n,
            out@ + unescape(s@.skip(i as int)) == unescape(s@),
        decreases n - i,
    {
        let ghost rest = s@.skip(i as int);
        if i + 1 < n && s.get_char(i) == '\\' && s.get_char(i + 1) == ' ' {
            proof {
                reveal_strlit(" ");
                assert(rest.skip(2) =~= s@.skip(i + 2));
                assert(" "@ =~= seq![' ']);
            }
            out.append(" ");
            proof {
                assert(out@ + unescape(s@.skip(i + 2)) =~= unescape(s@));
            }
            i = i + 2;
        } else {
            let piece = s.substring_char(i, i + 1);
            proof {
                assert(rest.skip(1) =~= s@.skip(i + 1));
                assert(piece@ =~= seq![rest[0]]);
            }
            out.append(piece);
            proof {
                assert(out@ + unescape(s@.skip(i + 1)) =~= unescape(s@));
            }
            i = i + 1;
        }
    }
    proof {
        assert(s@.skip(n as int) =~= Seq::<char>::empty());
        assert(out@ =~= out@ + unescape(s@.skip(n as int)));
    }
    out
}

/// Splits a `guifont` value into the family and the size text of its first
/// font, or gives `None` for an empty value.
pub fn guifont_parts(guifont: &str) -> (r: Option<(String, Option<String>)>)
    ensures
        match r {
            Some((family, size)) => guifont_of(guifont@) == Some((family@, match size {
                Some(x) => Some(x@),
                None => None,
            })),
            None => guifont_of(guifont@) is None,
        },
{
    let n = guifont.unicode_len();
    if n == 0 {
        return None;
    }
    let end = find_first_comma(guifont);
    proof {
        lemma_first_comma(guifont@);
    }
    let first_font = guifont.substring_char(0, end);
    assert(first_font@ =~= guifont@.take(first_comma(guifont@)));
    match find_size_mark(first_font) {
        Some(i) => {
            proof {
                lemma_last_size_mark(first_font@);
            }
            let family_text = first_font.substring_char(0, i);
            let size_text = first_font.substring_char(i + 2, first_font.unicode_len());
            assert(family_text@ =~= first_font@.take(i as int));
            assert(size_text@ =~= first_font@.skip(i + 2));
            let family = unescape_spaces(family_text);
            Some((family, Some(String::from_str(size_text))))
        },
        None => Some((unescape_spaces(first_font), None)),
    }
}

} // verus!
