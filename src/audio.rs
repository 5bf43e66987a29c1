//! Audio file kinds, told apart by file name.
use vstd::prelude::*;
use vstd::string::StrSliceExecFns;

verus! {

/// The kind of an audio file.
#[derive(Clone, Copy, Debug, PartialEq, Eq, Structural)]
pub enum AudioType {
    WAV,
    MP3,
    OGG,
    FLAC,
    Other,
}

/// The code of `c` after ASCII lower-casing.
pub open spec fn ascii_lower(c: char) -> u32 {
    if 'A' <= c <= 'Z' {
        (c as u32 + 32) as u32
    } else {
        c as u32
    }
}

/// `s` ends with `suffix`, ignoring ASCII case; `suffix` is in lower case.
pub open spec fn ends_with_ci(s: Seq<char>, suffix: Seq<char>) -> bool {
    &&& suffix.len() <= s.len()
    &&& forall|i: int|
        0 <= i < suffix.len() ==> ascii_lower(#[trigger] s[s.len() - suffix.len() + i])
            == suffix[i] as u32
}

/// The kind named by the end of a file name.
pub open spec fn audio_type_of(path: Seq<char>) -> AudioType {
    if ends_with_ci(path, seq!['w', 'a', 'v']) {
        AudioType::WAV
    } else if ends_with_ci(path, seq!['m', 'p', '3']) {
        AudioType::MP3
    } else if ends_with_ci(path, seq!['o', 'g', 'g']) {
        AudioType::OGG
    } else if ends_with_ci(path, seq!['f', 'l', 'a', 'c']) {
        AudioType::FLAC
    } else {
        AudioType::Other
    }
}

fn lower_code(c: char) -> (r: u32)
    ensures
        r == ascii_lower(c),
{
    if 'A' <= c && c <= 'Z' {
        c as u32 + 32
    } else {
        c as u32
    }
}

/// Whether `s` ends with the characters of `suffix`, ignoring ASCII case.
fn ends_with_ci_exec(s: &str, suffix: &[char]) -> (r: bool)
    ensures
        r == ends_with_ci(s@, suffix@),
{
    let n = s.unicode_len();
    let m = suffix.len();
    if m > n {
        return false;
    }
    let mut i: usize = 0;
    while i < m
        invariant
            n == s@.len(),
            m == suffix@.len(),
            m <= n,
            i <= m,
            forall|j: int| 0 <= j < i ==> ascii_lower(#[trigger] s@[n - m + j]) == suffix@[j] as u32,
        decreases m - i,
    {
        if lower_code(s.get_char(n - m + i)) != suffix[i] as u32 {
            return false;
        }
        i += 1;
    }
    true
}

impl AudioType {
    /// The kind named by the end of `path`, ignoring ASCII case.
    pub fn test(path: &str) -> (r: AudioType)
        ensures
            r == audio_type_of(path@),
    {
        let wav: [char; 3] = ['w', 'a', 'v'];
        let mp3: [char; 3] = ['m', 'p', '3'];
        let ogg: [char; 3] = ['o', 'g', 'g'];
        let flac: [char; 4] = ['f', 'l', 'a', 'c'];
        proof {
            assert(wav@ =~= seq!['w', 'a', 'v']);
            assert(mp3@ =~= seq!['m', 'p', '3']);
            assert(ogg@ =~= seq!['o', 'g', 'g']);
            assert(flac@ =~= seq!['f', 'l', 'a', 'c']);
        }
        if ends_with_ci_exec(path, &wav) {
            AudioType::WAV
        } else if ends_with_ci_exec(path, &mp3) {
            AudioType::MP3
        } else if ends_with_ci_exec(path, &ogg) {
            AudioType::OGG
        } else if ends_with_ci_exec(path, &flac) {
            AudioType::FLAC
        } else {
            AudioType::Other
        }
    }
}

} // verus!
