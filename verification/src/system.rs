//! What the application reports about the machine it runs on. Asking the
//! machine is the caller's part; what is made of the answers is decided here.

use vstd::prelude::*;
use vstd::string::StringExecFns;
use crate::text::{
    chars_of,
    matches_at,
    optional_text,
    same_text,
    text_of,
    trim,
    trim_bounds,
    trimmed,
    Strip,
};

verus! {

/// The operating system and the machine's name.
#[derive(Debug, PartialEq, Eq)]
pub struct OsInfo {
    pub os_type: String,
    pub os_release: String,
    pub hostname: String,
}

/// The model of an `OsInfo`.
pub struct OsInfoView {
    pub os_type: Seq<char>,
    pub os_release: Seq<char>,
    pub hostname: Seq<char>,
}

impl View for OsInfo {
    type V = OsInfoView;

    open spec fn view(&self) -> OsInfoView {
        OsInfoView {
            os_type: self.os_type@,
            os_release: self.os_release@,
            hostname: self.hostname@,
        }
    }
}

/// Installed and available memory, both in kilobytes.
#[derive(Clone, Copy, Debug, PartialEq, Eq)]
pub struct MemoryInfo {
    pub total_mem: u64,
    pub free_mem: u64,
}

/// The memory figures shown to the user: 16 GiB installed, of which 8 GiB
/// are free. The figures are fixed; the machine is not asked.
pub fn get_memory_info() -> (info: MemoryInfo)
    ensures
        info.total_mem == 16 * 1024 * 1024,
        info.free_mem == 8 * 1024 * 1024,
{
    MemoryInfo { total_mem: 16 * 1024 * 1024, free_mem: 8 * 1024 * 1024 }
}

/// A text that was asked for, or `fallback` where asking failed.
pub open spec fn text_or_fallback(answer: Option<String>, fallback: Seq<char>) -> Seq<char> {
    match answer {
        Some(t) => t@,
        None => fallback,
    }
}

/// The working directory to show: the one the system names, or `Unknown`.
pub fn get_cwd(current_dir: Option<String>) -> (cwd: String)
    ensures
        cwd@ == text_or_fallback(current_dir, "Unknown"@),
{
    match current_dir {
        Some(dir) => dir,
        None => String::from_str("Unknown"),
    }
}

/// The number of characters before the first line feed.
pub open spec fn line_len(s: Seq<char>) -> nat
    decreases s.len(),
{
    if s.len() == 0 || s[0] == '\n' {
        0
    } else {
        1 + line_len(s.drop_first())
    }
}

/// The first line of a text, without its line ending: a line feed, or a
/// carriage return followed by a line feed.
pub open spec fn first_line(s: Seq<char>) -> Seq<char> {
    let n = line_len(s) as int;
    let raw = s.take(n);
    if n < s.len() && n > 0 && raw.last() == '\r' {
        raw.drop_last()
    } else {
        raw
    }
}

/// `s` begins with `prefix`.
pub open spec fn starts_with(s: Seq<char>, prefix: Seq<char>) -> bool {
    prefix.len() <= s.len() && s.take(prefix.len() as int) == prefix
}

/// The part of `s` before the first `stop`, or all of `s` if there is none.
pub open spec fn until(s: Seq<char>, stop: char) -> Seq<char>
    decreases s.len(),
{
    if s.len() == 0 || s[0] == stop {
        Seq::empty()
    } else {
        seq![s[0]] + until(s.drop_first(), stop)
    }
}

/// The key under which a release file names the system.
pub open spec fn pretty_key() -> Seq<char> {
    "PRETTY_NAME="@
}

/// The name a release file gives the system: in the first line that begins
/// with `PRETTY_NAME=`, what stands between that and the next `=` or the end
/// of the line, without the quotes around it.
pub open spec fn pretty_name(s: Seq<char>) -> Option<Seq<char>>
    decreases s.len(),
{
    if s.len() == 0 {
        None
    } else {
        let line = first_line(s);
        if starts_with(line, pretty_key()) {
            Some(trimmed(Strip::Quotes, until(line.skip(pretty_key().len() as int), '=')))
        } else if line_len(s) < s.len() {
            pretty_name(s.skip(line_len(s) as int + 1))
        } else {
            None
        }
    }
}

/// A line ends where the first line feed stands.
proof fn lemma_line_len(s: Seq<char>, n: int)
    requires
        0 <= n <= s.len(),
        forall|k: int| 0 <= k < n ==> s[k] != '\n',
        n < s.len() ==> s[n] == '\n',
    ensures
        line_len(s) == n,
    decreases n,
{
    if n > 0 {
        let rest = s.drop_first();
        assert forall|k: int| 0 <= k < n - 1 implies rest[k] != '\n' by {
            assert(rest[k] == s[k + 1]);
        }
        if n < s.len() {
            assert(rest[n - 1] == s[n]);
        }
        lemma_line_len(rest, n - 1);
    }
}

/// `until` ends where the first `stop` stands.
proof fn lemma_until(s: Seq<char>, stop: char, n: int)
    requires
        0 <= n <= s.len(),
        forall|k: int| 0 <= k < n ==> s[k] != stop,
        n < s.len() ==> s[n] == stop,
    ensures
        until(s, stop) == s.take(n),
    decreases n,
{
    if n > 0 {
        let rest = s.drop_first();
        assert forall|k: int| 0 <= k < n - 1 implies rest[k] != stop by {
            assert(rest[k] == s[k + 1]);
        }
        if n < s.len() {
            assert(rest[n - 1] == s[n]);
        }
        lemma_until(rest, stop, n - 1);
        assert(seq![s[0]] + rest.take(n - 1) =~= s.take(n));
    } else {
        assert(s.take(0) =~= Seq::<char>::empty());
    }
}

/// Looks a release file up for the name of the system.
pub fn find_pretty_name(release_file: &str) -> (name: Option<String>)
    ensures
        optional_text(name) == pretty_name(release_file@),
{
    let chars = chars_of(release_file);
    let key = chars_of("PRETTY_NAME=");
    let mut start: usize = 0;
    proof {
        assert(chars@.skip(0) =~= chars@);
    }
    while start < chars.len()
        invariant
            start <= chars.len(),
            chars@ == release_file@,
            key@ == pretty_key(),
            pretty_name(chars@.skip(start as int)) == pretty_name(release_file@),
        decreases chars.len() - start,
    {
        let ghost rest = chars@.skip(start as int);
        let mut end: usize = start;
        while end < chars.len() && chars[end] != '\n'
            invariant
                start <= end <= chars.len(),
                forall|k: int| start <= k < end ==> chars@[k] != '\n',
            decreases chars.len() - end,
        {
            end += 1;
        }
        let mut line_end: usize = end;
        if end < chars.len() && end > start && chars[end - 1] == '\r' {
            line_end = end - 1;
        }
        proof {
            assert forall|k: int| 0 <= k < end - start implies rest[k] != '\n' by {
                assert(rest[k] == chars@[start + k]);
            }
            if end < chars.len() {
                assert(rest[end - start] == chars@[end as int]);
            }
            lemma_line_len(rest, end - start);
            assert(rest.take(end - start) =~= chars@.subrange(start as int, end as int));
            if end > start {
                assert(rest.take(end - start).last() == chars@[end - 1]);
            }
            assert(first_line(rest) =~= chars@.subrange(start as int, line_end as int));
        }
        let ghost line = chars@.subrange(start as int, line_end as int);
        if key.len() <= line_end - start && matches_at(&chars, &key, start) {
            let from: usize = start + key.len();
            let mut stop: usize = from;
            while stop < line_end && chars[stop] != '='
                invariant
                    from <= stop <= line_end <= chars.len(),
                    forall|k: int| from <= k < stop ==> chars@[k] != '=',
                decreases line_end - stop,
            {
                stop += 1;
            }
            let (a, b) = trim_bounds(&chars, from, stop, Strip::Quotes);
            proof {
                assert(line.take(key.len() as int) =~= chars@.subrange(
                    start as int,
                    start + key.len(),
                ));
                assert(starts_with(line, pretty_key()));
                let value = line.skip(key.len() as int);
                assert(value =~= chars@.subrange(from as int, line_end as int));
                assert forall|k: int| 0 <= k < stop - from implies value[k] != '=' by {
                    assert(value[k] == chars@[from + k]);
                }
                if stop < line_end {
                    assert(value[stop - from] == chars@[stop as int]);
                }
                lemma_until(value, '=', stop - from);
                assert(value.take(stop - from) =~= chars@.subrange(from as int, stop as int));
            }
            return Some(text_of(&chars, a, b));
        }
        proof {
            if key.len() <= line_end - start {
                assert(line.take(key.len() as int) =~= chars@.subrange(
                    start as int,
                    start + key.len(),
                ));
            }
            assert(!starts_with(line, pretty_key()));
        }
        if end < chars.len() {
            proof {
                assert(rest.skip(end - start + 1) =~= chars@.skip(end + 1));
            }
            start = end + 1;
        } else {
            return None;
        }
    }
    proof {
        assert(chars@.skip(start as int).len() == 0);
    }
    None
}

/// The release of the system, from its kind and from what asking the machine
/// came back with (`None` where asking failed):
/// on Windows the answer as it is, on macOS the answer without the whitespace
/// around it, on Linux the name found in the release file; where there is no
/// answer or no name, the plain name of the system; `Unknown` for any other
/// kind of system.
pub open spec fn release_of(os_type: Seq<char>, answer: Option<String>) -> Seq<char> {
    if os_type == "windows"@ {
        text_or_fallback(answer, "Windows"@)
    } else if os_type == "macos"@ {
        match answer {
            Some(version) => trimmed(Strip::Whitespace, version@),
            None => "macOS"@,
        }
    } else if os_type == "linux"@ {
        match answer {
            Some(release_file) => match pretty_name(release_file@) {
                Some(name) => name,
                None => "Linux"@,
            },
            None => "Linux"@,
        }
    } else {
        "Unknown"@
    }
}

/// The machine's name: the answer without the whitespace around it, or
/// `Unknown` where asking failed.
pub open spec fn hostname_of(answer: Option<String>) -> Seq<char> {
    match answer {
        Some(name) => trimmed(Strip::Whitespace, name@),
        None => "Unknown"@,
    }
}

fn os_release(os_type: &str, answer: Option<String>) -> (release: String)
    ensures
        release@ == release_of(os_type@, answer),
{
    if same_text(os_type, "windows") {
        match answer {
            Some(name) => name,
            None => String::from_str("Windows"),
        }
    } else if same_text(os_type, "macos") {
        match answer {
            Some(version) => trim(version.as_str()),
            None => String::from_str("macOS"),
        }
    } else if same_text(os_type, "linux") {
        match answer {
            Some(release_file) => match find_pretty_name(release_file.as_str()) {
                Some(name) => name,
                None => String::from_str("Linux"),
            },
            None => String::from_str("Linux"),
        }
    } else {
        String::from_str("Unknown")
    }
}

/// Describes the system from its kind and from what asking the machine came
/// back with: `release_answer` is the `OS` variable on Windows, the output of
/// `sw_vers -productVersion` on macOS and the content of `/etc/os-release`
/// on Linux; `hostname_answer` is the output of `hostname`.
pub fn get_os_info(os_type: &str, release_answer: Option<String>, hostname_answer: Option<String>) -> (info:
    OsInfo)
    ensures
        info@ == (OsInfoView {
            os_type: os_type@,
            os_release: release_of(os_type@, release_answer),
            hostname: hostname_of(hostname_answer),
        }),
{
    let hostname = match hostname_answer {
        Some(name) => trim(name.as_str()),
        None => String::from_str("Unknown"),
    };
    OsInfo {
        os_type: String::from_str(os_type),
        os_release: os_release(os_type, release_answer),
        hostname,
    }
}

} // verus!
