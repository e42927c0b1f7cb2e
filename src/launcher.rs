//! The text that the launcher hands to the menu program and to the window
//! manager, and what it reads back from the menu.
use vstd::prelude::*;

verus! {

/// `s` without the newlines it ends with.
pub open spec fn trim_trailing_newlines(s: Seq<char>) -> Seq<char>
    decreases s.len(),
{
    if s.len() > 0 && s[s.len() - 1] == '\n' {
        trim_trailing_newlines(s.subrange(0, s.len() - 1))
    } else {
        s
    }
}

/// The entry a user picked, from what the menu program printed: its output
/// without the newlines it ends with.
pub fn selection(output: &str) -> (r: String)
    ensures
        r@ == trim_trailing_newlines(output@),
{
    let len = output.unicode_len();
    let mut end: usize = len;
    assert(output@.subrange(0, len as int) =~= output@);
    while end > 0 && output.get_char(end - 1) == '\n'
        invariant
            0 <= end <= len,
            len == output@.len(),
            trim_trailing_newlines(output@) == trim_trailing_newlines(output@.subrange(0, end as int)),
        decreases end,
    {
        proof {
            let head = output@.subrange(0, end as int);
            assert(head.subrange(0, head.len() - 1) =~= output@.subrange(0, end - 1));
        }
        end -= 1;
    }
    String::from_str(output.substring_char(0, end))
}

/// The window criteria that select the windows of an application:
/// `[app_id="<app>"]`.
pub open spec fn criteria_of(app: Seq<char>) -> Seq<char> {
    "[app_id=\""@ + app + "\"]"@
}

/// The window criteria that select the windows of the application `app`.
pub fn scratchpad_criteria(app: &str) -> (r: String)
    ensures
        r@ == criteria_of(app@),
{
    let mut r = String::from_str("[app_id=\"");
    r.append(app);
    r.append("\"]");
    r
}

/// The arguments of the window manager's message command that show the
/// windows of `app` from the scratchpad.
pub fn scratchpad_show_args(app: &str) -> (r: Vec<String>)
    ensures
        r@.len() == 3,
        r@[0]@ == criteria_of(app@),
        r@[1]@ == "scratchpad"@,
        r@[2]@ == "show"@,
{
    let mut r: Vec<String> = Vec::new();
    r.push(scratchpad_criteria(app));
    r.push(String::from_str("scratchpad"));
    r.push(String::from_str("show"));
    r
}

} // verus!
