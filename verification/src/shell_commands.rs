//! Preference commands: the pass-through invocations of the host
//! configuration utility, split into their pure parts — which option maps to
//! which domain and key, and how the utility's textual output is classified.
//! Running the utility itself is the caller's concern.

use vstd::prelude::*;
use vstd::string::*;
use crate::response::{ResponseResult, ResponseValue};
use crate::strutil::{str_eq, str_starts_with};

verus! {

/// A preference to read.
pub enum DefaultsReadOption {
    CreateDesktop,
    ShowHardDrives,
    ScreenshotDirectory,
    ScreenshotFormat,
}

/// A preference to write, with its new value.
pub enum DefaultsWriteOption {
    ScreenshotDirectory(String),
    ScreenshotFormat(String),
    CreateDesktop(bool),
    ShowHardDrives(bool),
}

/// Outcome of a preference command: a text value, a flag, or a failure to
/// run the host utility.
pub enum DefaultsReturnType {
    String(String),
    Bool(bool),
    Error(String),
}

/// Whitespace around the host utility's output: the Unicode `White_Space`
/// set, the same set `char::is_whitespace` names.
pub open spec fn spec_is_space(c: char) -> bool {
    let u = c as u32;
    ||| 0x9 <= u <= 0xD
    ||| u == 0x20
    ||| u == 0x85
    ||| u == 0xA0
    ||| u == 0x1680
    ||| 0x2000 <= u <= 0x200A
    ||| u == 0x2028
    ||| u == 0x2029
    ||| u == 0x202F
    ||| u == 0x205F
    ||| u == 0x3000
}

fn is_space(c: char) -> (r: bool)
    ensures
        r == spec_is_space(c),
{
    let u = c as u32;
    (0x9 <= u && u <= 0xD) || u == 0x20 || u == 0x85 || u == 0xA0 || u == 0x1680 || (0x2000 <= u
        && u <= 0x200A) || u == 0x2028 || u == 0x2029 || u == 0x202F || u == 0x205F || u == 0x3000
}

/// The characters left after dropping leading whitespace.
pub open spec fn spec_trim_front(s: Seq<char>) -> Seq<char>
    decreases s.len(),
{
    if s.len() > 0 && spec_is_space(s[0]) {
        spec_trim_front(s.drop_first())
    } else {
        s
    }
}

/// The characters left after dropping trailing whitespace.
pub open spec fn spec_trim_back(s: Seq<char>) -> Seq<char>
    decreases s.len(),
{
    if s.len() > 0 && spec_is_space(s.last()) {
        spec_trim_back(s.drop_last())
    } else {
        s
    }
}

/// The characters left after dropping whitespace on both ends.
pub open spec fn spec_trim(s: Seq<char>) -> Seq<char> {
    spec_trim_back(spec_trim_front(s))
}

proof fn lemma_trim_front_skip(s: Seq<char>, a: int)
    requires
        0 <= a <= s.len(),
        forall|k: int| 0 <= k < a ==> spec_is_space(s[k]),
        a == s.len() || !spec_is_space(s[a]),
    ensures
        spec_trim_front(s) == s.skip(a),
    decreases a,
{
    if a == 0 {
        assert(s.skip(0) =~= s);
    } else {
        assert(spec_is_space(s[0]));
        let t = s.drop_first();
        assert(t =~= s.skip(1));
        assert forall|k: int| 0 <= k < a - 1 implies spec_is_space(#[trigger] t[k]) by {
            assert(t[k] == s[k + 1]);
        }
        lemma_trim_front_skip(t, a - 1);
        assert(t.skip(a - 1) =~= s.skip(a));
    }
}

proof fn lemma_trim_back_take(s: Seq<char>, b: int)
    requires
        0 <= b <= s.len(),
        forall|k: int| b <= k < s.len() ==> spec_is_space(s[k]),
        b == 0 || !spec_is_space(s[b - 1]),
    ensures
        spec_trim_back(s) == s.take(b),
    decreases s.len() - b,
{
    if b == s.len() {
        assert(s.take(b) =~= s);
    } else {
        assert(spec_is_space(s.last()));
        let t = s.drop_last();
        assert(t =~= s.take(s.len() - 1));
        assert forall|k: int| b <= k < t.len() implies spec_is_space(#[trigger] t[k]) by {
            assert(t[k] == s[k]);
        }
        lemma_trim_back_take(t, b);
        assert(t.take(b) =~= s.take(b));
    }
}

/// First position in `s` holding a non-whitespace character, or the length.
fn first_non_space(s: &str) -> (a: usize)
    ensures
        a <= s@.len(),
        forall|k: int| 0 <= k < a ==> spec_is_space(s@[k]),
        a == s@.len() || !spec_is_space(s@[a as int]),
{
    let len = s.unicode_len();
    let mut a: usize = 0;
    while a < len
        invariant
            a <= len,
            len == s@.len(),
            forall|k: int| 0 <= k < a ==> spec_is_space(s@[k]),
        decreases len - a,
    {
        if !is_space(s.get_char(a)) {
            return a;
        }
        a = a + 1;
    }
    a
}

/// One past the last non-whitespace position of `s`, scanning down to the
/// known non-whitespace position `a`.
fn last_non_space_end(s: &str, a: usize) -> (b: usize)
    requires
        a < s@.len(),
        !spec_is_space(s@[a as int]),
    ensures
        a < b <= s@.len(),
        forall|k: int| b <= k < s@.len() ==> spec_is_space(s@[k]),
        !spec_is_space(s@[b - 1]),
{
    let len = s.unicode_len();
    let mut b: usize = len;
    while b > a
        invariant
            a <= b <= len,
            len == s@.len(),
            forall|k: int| b <= k < len ==> spec_is_space(s@[k]),
        decreases b,
    {
        if !is_space(s.get_char(b - 1)) {
            return b;
        }
        b = b - 1;
    }
    proof {
        assert(spec_is_space(s@[a as int]));
        assert(false);
    }
    b
}

/// Removes leading and trailing whitespace from the host utility's output.
pub fn trim_spaces(s: &str) -> (r: String)
    ensures
        r@ == spec_trim(s@),
{
    let len = s.unicode_len();
    let a = first_non_space(s);
    if a == len {
        proof {
            lemma_trim_front_skip(s@, a as int);
            assert(s@.skip(a as int) =~= Seq::<char>::empty());
        }
        String::new()
    } else {
        let b = last_non_space_end(s, a);
        proof {
            lemma_trim_front_skip(s@, a as int);
            let t = s@.skip(a as int);
            assert forall|k: int| b - a <= k < t.len() implies spec_is_space(#[trigger] t[k]) by {
                assert(t[k] == s@[k + a]);
            }
            assert(t[b - a - 1] == s@[b - 1]);
            lemma_trim_back_take(t, b - a);
            assert(t.take(b - a) =~= s@.subrange(a as int, b as int));
        }
        s.substring_char(a, b).to_owned()
    }
}

/// How a trimmed output reads as a flag: "1" and "true" are the flag true,
/// "0" and "false" the flag false, anything else is plain text.
pub open spec fn spec_classify(t: Seq<char>) -> Option<bool> {
    if t == "1"@ || t == "true"@ {
        Some(true)
    } else if t == "0"@ || t == "false"@ {
        Some(false)
    } else {
        None
    }
}

/// Classifies what the host utility printed for a preference read; `None`
/// stands for a utility that could not be run at all.
pub fn execute_defaults_read(output: Option<String>) -> (r: DefaultsReturnType)
    ensures
        match output {
            None => r matches DefaultsReturnType::Error(m) && m@
                == "Failed to execute defaults read command"@,
            Some(o) => match spec_classify(spec_trim(o@)) {
                Some(b) => r == DefaultsReturnType::Bool(b),
                None => r matches DefaultsReturnType::String(v) && v@ == spec_trim(o@),
            },
        },
{
    match output {
        None => DefaultsReturnType::Error("Failed to execute defaults read command".to_owned()),
        Some(o) => {
            let t = trim_spaces(o.as_str());
            if str_eq(t.as_str(), "1") || str_eq(t.as_str(), "true") {
                DefaultsReturnType::Bool(true)
            } else if str_eq(t.as_str(), "0") || str_eq(t.as_str(), "false") {
                DefaultsReturnType::Bool(false)
            } else {
                DefaultsReturnType::String(t)
            }
        },
    }
}

/// Outcome of a preference write: a utility that ran reads as the flag true;
/// one that could not be run is an explicit failure.
pub fn execute_defaults_write(ran: bool) -> (r: DefaultsReturnType)
    ensures
        ran ==> r == DefaultsReturnType::Bool(true),
        !ran ==> (r matches DefaultsReturnType::Error(m) && m@
            == "Failed to execute defaults write command"@),
{
    if ran {
        DefaultsReturnType::Bool(true)
    } else {
        DefaultsReturnType::Error("Failed to execute defaults write command".to_owned())
    }
}

/// The domain and key of the host preference read each option denotes.
pub fn execute_defaults_read_cmd(option: DefaultsReadOption) -> (r: (String, String))
    ensures
        match option {
            DefaultsReadOption::CreateDesktop => r.0@ == "com.apple.finder"@ && r.1@
                == "CreateDesktop"@,
            DefaultsReadOption::ShowHardDrives => r.0@ == "com.apple.finder"@ && r.1@
                == "ShowHardDrivesOnDesktop"@,
            DefaultsReadOption::ScreenshotDirectory => r.0@ == "com.apple.screencapture"@ && r.1@
                == "location"@,
            DefaultsReadOption::ScreenshotFormat => r.0@ == "com.apple.screencapture"@ && r.1@
                == "type"@,
        },
{
    match option {
        DefaultsReadOption::CreateDesktop => (
            "com.apple.finder".to_owned(),
            "CreateDesktop".to_owned(),
        ),
        DefaultsReadOption::ShowHardDrives => (
            "com.apple.finder".to_owned(),
            "ShowHardDrivesOnDesktop".to_owned(),
        ),
        DefaultsReadOption::ScreenshotDirectory => (
            "com.apple.screencapture".to_owned(),
            "location".to_owned(),
        ),
        DefaultsReadOption::ScreenshotFormat => (
            "com.apple.screencapture".to_owned(),
            "type".to_owned(),
        ),
    }
}

/// The domain and argument list of the host preference write each option
/// denotes.
pub fn execute_defaults_write_cmd(option: DefaultsWriteOption) -> (r: (String, Vec<String>))
    ensures
        match option {
            DefaultsWriteOption::ScreenshotDirectory(dir) => r.0@ == "com.apple.screencapture"@
                && r.1.deep_view() =~= seq!["location"@, dir@],
            DefaultsWriteOption::ScreenshotFormat(format) => r.0@ == "com.apple.screencapture"@
                && r.1.deep_view() =~= seq!["type"@, format@],
            DefaultsWriteOption::CreateDesktop(should_create) => r.0@ == "com.apple.finder"@
                && r.1.deep_view() =~= seq![
                "CreateDesktop"@,
                "-bool"@,
                if should_create {
                    "true"@
                } else {
                    "false"@
                },
            ],
            DefaultsWriteOption::ShowHardDrives(show) => r.0@ == "com.apple.finder"@
                && r.1.deep_view() =~= seq![
                "ShowHardDrivesOnDesktop"@,
                "-bool"@,
                if show {
                    "true"@
                } else {
                    "false"@
                },
            ],
        },
{
    match option {
        DefaultsWriteOption::ScreenshotDirectory(dir) => {
            let args: Vec<String> = vec!["location".to_owned(), dir];
            ("com.apple.screencapture".to_owned(), args)
        },
        DefaultsWriteOption::ScreenshotFormat(format) => {
            let args: Vec<String> = vec!["type".to_owned(), format];
            ("com.apple.screencapture".to_owned(), args)
        },
        DefaultsWriteOption::CreateDesktop(should_create) => {
            let flag = if should_create {
                "true".to_owned()
            } else {
                "false".to_owned()
            };
            let args: Vec<String> = vec!["CreateDesktop".to_owned(), "-bool".to_owned(), flag];
            ("com.apple.finder".to_owned(), args)
        },
        DefaultsWriteOption::ShowHardDrives(show) => {
            let flag = if show {
                "true".to_owned()
            } else {
                "false".to_owned()
            };
            let args: Vec<String> = vec![
                "ShowHardDrivesOnDesktop".to_owned(),
                "-bool".to_owned(),
                flag,
            ];
            ("com.apple.finder".to_owned(), args)
        },
    }
}

/// Wraps a preference read's classified outcome in the uniform envelope.
pub fn read_defaults(ret: DefaultsReturnType) -> (r: ResponseResult<ResponseValue>)
    ensures
        match ret {
            DefaultsReturnType::String(s) => {
                &&& r.success
                &&& r.error@ == Seq::<char>::empty()
                &&& r.result matches ResponseValue::String(v) && v@ == s@
            },
            DefaultsReturnType::Bool(b) => r.success && r.error@ == Seq::<char>::empty()
                && r.result == ResponseValue::Bool(b),
            DefaultsReturnType::Error(e) => !r.success && r.error@ == e@ && r.result
                == ResponseValue::Bool(false),
        },
{
    match ret {
        DefaultsReturnType::String(s) => ResponseResult {
            success: true,
            error: String::new(),
            result: ResponseValue::String(s),
        },
        DefaultsReturnType::Bool(b) => ResponseResult {
            success: true,
            error: String::new(),
            result: ResponseValue::Bool(b),
        },
        DefaultsReturnType::Error(e) => ResponseResult {
            success: false,
            error: e,
            result: ResponseValue::Bool(false),
        },
    }
}

/// The abbreviated form of a read screenshot directory: a text path lying
/// under the home directory has that prefix rewritten to "~"; anything else
/// — a flag value, no home directory, or a path not starting with it — has
/// no abbreviation.
pub open spec fn spec_home_abbreviated(result: ResponseValue, home: Option<String>) -> Option<
    Seq<char>,
> {
    match result {
        ResponseValue::String(path) => match home {
            Some(h) => if h@.is_prefix_of(path@) {
                Some(seq!['~'] + path@.skip(h@.len() as int))
            } else {
                None
            },
            None => None,
        },
        ResponseValue::Bool(_) => None,
    }
}

/// The explicit screenshot-directory failure.
fn screenshot_directory_failure() -> (r: ResponseResult<ResponseValue>)
    ensures
        !r.success,
        r.error@ == "Failed to get screenshot directory"@,
        r.result matches ResponseValue::String(v) && v@ == Seq::<char>::empty(),
{
    ResponseResult {
        success: false,
        error: "Failed to get screenshot directory".to_owned(),
        result: ResponseValue::String(String::new()),
    }
}

/// The screenshot-directory command's compute part: a failed read passes its
/// error through; a successful read of a path under the home directory has
/// the home prefix abbreviated to "~"; everything else is the explicit
/// failure. A home directory standing anywhere but at the front of the path
/// is no prefix, so such a path is not abbreviated.
pub fn get_screenshot_directory(
    read_result: ResponseResult<ResponseValue>,
    home: Option<String>,
) -> (r: ResponseResult<ResponseValue>)
    ensures
        read_result.error@ != Seq::<char>::empty() ==> (!r.success && r.error@
            == read_result.error@ && (r.result matches ResponseValue::String(v) && v@
            == Seq::<char>::empty())),
        read_result.error@ == Seq::<char>::empty() ==> match spec_home_abbreviated(
            read_result.result,
            home,
        ) {
            Some(t) => r.success && r.error@ == Seq::<char>::empty() && (
            r.result matches ResponseValue::String(v) && v@ == t),
            None => !r.success && r.error@ == "Failed to get screenshot directory"@ && (
            r.result matches ResponseValue::String(v) && v@ == Seq::<char>::empty()),
        },
{
    if !read_result.error.as_str().is_empty() {
        return ResponseResult {
            success: false,
            error: read_result.error,
            result: ResponseValue::String(String::new()),
        };
    }
    proof {
        assert(read_result.error@ =~= Seq::<char>::empty());
    }
    match read_result.result {
        ResponseValue::String(path) => match home {
            Some(h) => {
                if str_starts_with(path.as_str(), h.as_str()) {
                    let home_len = h.as_str().unicode_len();
                    let path_len = path.as_str().unicode_len();
                    let suffix = path.as_str().substring_char(home_len, path_len);
                    let abbreviated = "~".to_owned().concat(suffix);
                    proof {
                        reveal_strlit("~");
                        assert("~"@ =~= seq!['~']);
                        assert(suffix@ =~= path@.skip(h@.len() as int));
                    }
                    ResponseResult {
                        success: true,
                        error: String::new(),
                        result: ResponseValue::String(abbreviated),
                    }
                } else {
                    screenshot_directory_failure()
                }
            },
            None => screenshot_directory_failure(),
        },
        ResponseValue::Bool(_) => screenshot_directory_failure(),
    }
}

/// Wraps a preference write's outcome in the uniform envelope. A successful
/// write asks the caller to relaunch the shell; a failed relaunch turns the
/// outcome into an explicit failure that still carries the written value.
/// The error string is empty exactly on success.
pub fn write_defaults(ret: DefaultsReturnType, relaunch_ok: bool) -> (r: ResponseResult<
    ResponseValue,
>)
    ensures
        match ret {
            DefaultsReturnType::String(s) => {
                &&& r.result matches ResponseValue::String(v) && v@ == s@
                &&& (if relaunch_ok {
                    r.success && r.error@ == Seq::<char>::empty()
                } else {
                    !r.success && r.error@ == "Failed to relaunch Finder"@
                })
            },
            DefaultsReturnType::Bool(b) => r.result == ResponseValue::Bool(b) && (if relaunch_ok {
                r.success && r.error@ == Seq::<char>::empty()
            } else {
                !r.success && r.error@ == "Failed to relaunch Finder"@
            }),
            DefaultsReturnType::Error(e) => !r.success && r.error@ == e@ && r.result
                == ResponseValue::Bool(false),
        },
{
    match ret {
        DefaultsReturnType::String(s) => {
            let error = if relaunch_ok {
                String::new()
            } else {
                "Failed to relaunch Finder".to_owned()
            };
            ResponseResult { success: relaunch_ok, error, result: ResponseValue::String(s) }
        },
        DefaultsReturnType::Bool(b) => {
            let error = if relaunch_ok {
                String::new()
            } else {
                "Failed to relaunch Finder".to_owned()
            };
            ResponseResult { success: relaunch_ok, error, result: ResponseValue::Bool(b) }
        },
        DefaultsReturnType::Error(e) => ResponseResult {
            success: false,
            error: e,
            result: ResponseValue::Bool(false),
        },
    }
}

} // verus!
