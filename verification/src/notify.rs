//! The notification after a sync: the statistics text is split into a summary line and a body,
//! and shown on the desktop or handed to the configured command.

use vstd::prelude::*;

use crate::unicode::{chars_of, push_char, push_str};
use crate::utils::{
    is_plain_word, option_chars, prepare_command, prepared_command, shell_words_of, strings_chars, vars_view, CommandError,
    ShellEnv,
};

verus! {

/// `s` with every occurrence of the non-empty `pattern` replaced by `with`, the occurrences
/// found from the left without overlapping, as `str::replace` does.
pub open spec fn replace_all(s: Seq<char>, pattern: Seq<char>, with: Seq<char>) -> Seq<char>
    decreases s.len(),
{
    if pattern.len() == 0 || s.len() < pattern.len() {
        s
    } else if s.take(pattern.len() as int) == pattern {
        with + replace_all(s.skip(pattern.len() as int), pattern, with)
    } else {
        seq![s[0]] + replace_all(s.drop_first(), pattern, with)
    }
}

/// Whether `pattern` occurs in `s` at `at`.
fn occurs_at(s: &[char], at: usize, pattern: &[char]) -> (b: bool)
    requires
        at + pattern@.len() <= s@.len(),
    ensures
        b == (s@.skip(at as int).take(pattern@.len() as int) == pattern@),
{
    let n = s.len();
    let mut k: usize = 0;
    while k < pattern.len()
        invariant
            n == s@.len(),
            at + pattern@.len() <= s@.len(),
            k <= pattern@.len(),
            forall|j: int| 0 <= j < k ==> s@[at + j] == pattern@[j],
        decreases pattern.len() - k,
    {
        if s[at + k] != pattern[k] {
            assert(s@.skip(at as int).take(pattern@.len() as int)[k as int] != pattern@[k as int]);
            return false;
        }
        k = k + 1;
    }
    assert(s@.skip(at as int).take(pattern@.len() as int) =~= pattern@);
    true
}

/// `s` with every occurrence of the non-empty `pattern` replaced by `with`.
pub fn replace_str(s: &str, pattern: &str, with: &str) -> (r: String)
    requires
        pattern@.len() > 0,
    ensures
        r@ == replace_all(s@, pattern@, with@),
{
    let sc = chars_of(s);
    let pc = chars_of(pattern);
    let ghost all = s@;
    let mut out = String::new();
    let mut i: usize = 0;
    assert(all.skip(0) =~= all);
    assert(Seq::<char>::empty() + all =~= all);
    while i < sc.len()
        invariant
            sc@ == all,
            pc@ == pattern@,
            pattern@.len() > 0,
            i <= all.len(),
            replace_all(all, pattern@, with@) == out@ + replace_all(all.skip(i as int), pattern@, with@),
        decreases all.len() - i,
    {
        let ghost rest = all.skip(i as int);
        let ghost before = out@;
        if pc.len() <= sc.len() - i && occurs_at(sc.as_slice(), i, pc.as_slice()) {
            push_str(&mut out, with);
            proof {
                assert(rest.take(pattern@.len() as int) == pattern@);
                assert(rest.skip(pattern@.len() as int) =~= all.skip(i + pattern@.len()));
                assert(before + (with@ + replace_all(all.skip(i + pattern@.len()), pattern@, with@))
                    =~= out@ + replace_all(all.skip(i + pattern@.len()), pattern@, with@));
            }
            i = i + pc.len();
        } else {
            push_char(&mut out, sc[i]);
            proof {
                assert(rest.drop_first() =~= all.skip(i + 1));
                if rest.len() < pattern@.len() {
                    assert(all.skip(i + 1).len() < pattern@.len());
                    assert(rest =~= seq![all[i as int]] + all.skip(i + 1));
                }
                assert(before + (seq![all[i as int]] + replace_all(all.skip(i + 1), pattern@, with@))
                    =~= out@ + replace_all(all.skip(i + 1), pattern@, with@));
            }
            i = i + 1;
        }
    }
    proof {
        assert(all.skip(i as int).len() == 0);
        assert(out@ + all.skip(i as int) =~= out@);
    }
    out
}

/// The index of the first `c` in `s`, or its length when there is none.
pub open spec fn first_index(s: Seq<char>, c: char) -> nat
    decreases s.len(),
{
    if s.len() == 0 {
        0
    } else if s[0] == c {
        0
    } else {
        1 + first_index(s.drop_first(), c)
    }
}

/// `first_index` is within the string, and is where `c` first occurs when it occurs.
pub proof fn lemma_first_index(s: Seq<char>, c: char)
    ensures
        first_index(s, c) <= s.len(),
        first_index(s, c) < s.len() <==> s.contains(c),
        first_index(s, c) < s.len() ==> s[first_index(s, c) as int] == c,
        forall|j: int| 0 <= j < first_index(s, c) ==> s[j] != c,
    decreases s.len(),
{
    if s.len() > 0 && s[0] != c {
        lemma_first_index(s.drop_first(), c);
        assert forall|j: int| 0 <= j < first_index(s, c) implies s[j] != c by {
            if j > 0 {
                assert(s[j] == s.drop_first()[j - 1]);
            }
        }
        if s.contains(c) {
            let k = choose|k: int| 0 <= k < s.len() && s[k] == c;
            assert(s.drop_first()[k - 1] == c);
        }
        if s.drop_first().contains(c) {
            let k = choose|k: int| 0 <= k < s.drop_first().len() && s.drop_first()[k] == c;
            assert(s[k + 1] == c);
        }
    } else if s.len() > 0 {
        assert(s[0] == c);
    }
}

/// `s` split at its first line break into the text before and the text after it.
pub open spec fn split_at_newline(s: Seq<char>) -> Option<(Seq<char>, Seq<char>)> {
    let i = first_index(s, '\n');
    if i < s.len() {
        Some((s.take(i as int), s.skip(i + 1 as int)))
    } else {
        None
    }
}

/// Splits `s` at its first line break, as `str::split_once("\n")` does.
pub fn split_once_newline(s: &str) -> (r: Option<(String, String)>)
    ensures
        match r {
            Some((a, b)) => split_at_newline(s@) == Some((a@, b@)),
            None => split_at_newline(s@) is None,
        },
{
    let cs = chars_of(s);
    let mut i: usize = 0;
    proof {
        lemma_first_index(s@, '\n');
    }
    while i < cs.len() && cs[i] != '\n'
        invariant
            cs@ == s@,
            i <= cs@.len(),
            i <= first_index(s@, '\n'),
            forall|j: int| 0 <= j < first_index(s@, '\n') ==> s@[j] != '\n',
            first_index(s@, '\n') < s@.len() ==> s@[first_index(s@, '\n') as int] == '\n',
            first_index(s@, '\n') <= s@.len(),
        decreases cs.len() - i,
    {
        i = i + 1;
    }
    if i == cs.len() {
        return None;
    }
    let mut head = String::new();
    let mut k: usize = 0;
    while k < i
        invariant
            cs@ == s@,
            k <= i < cs@.len(),
            head@ == s@.take(k as int),
        decreases i - k,
    {
        push_char(&mut head, cs[k]);
        assert(s@.take(k + 1) =~= s@.take(k as int).push(s@[k as int]));
        k = k + 1;
    }
    let mut tail = String::new();
    let mut m: usize = i + 1;
    while m < cs.len()
        invariant
            cs@ == s@,
            i < cs@.len(),
            i + 1 <= m <= cs@.len(),
            tail@ == s@.subrange(i + 1, m as int),
        decreases cs.len() - m,
    {
        push_char(&mut tail, cs[m]);
        assert(s@.subrange(i + 1, m + 1) =~= s@.subrange(i + 1, m as int).push(s@[m as int]));
        m = m + 1;
    }
    assert(s@.subrange(i + 1, s@.len() as int) =~= s@.skip(i + 1));
    Some((head, tail))
}

/// The command that shows the notification: the configured one with `{summary}` and `{body}`
/// replaced, in that order.
pub open spec fn notify_command(template: Seq<char>, summary: Seq<char>, body: Seq<char>) -> Seq<char> {
    replace_all(replace_all(template, "{summary}"@, summary), "{body}"@, body)
}

/// How the notification after a sync is shown.
pub enum NotifyPlan {
    /// Nothing is shown but this error tooltip.
    ErrorTooltip(String),
    /// A desktop notification with this summary and body.
    Desktop { summary: String, body: String },
    /// This program, with these arguments.
    Command { program: String, args: Vec<String> },
}

/// The message shown when the statistics have no line break.
pub open spec fn invalid_stats_message() -> Seq<char> {
    "invalid format of sync stats"@
}

/// The message shown when the notification command cannot be prepared.
pub open spec fn invalid_notify_command_message(command: Seq<char>) -> Seq<char> {
    "invalid notify after sync cmd: "@ + command
}

/// Decides how the notification after a sync is shown: the statistics `stats` are split at their
/// first line break into summary and body; without a configured command they go to the desktop,
/// otherwise the command, with the two filled in, is prepared in `env` and run.
pub fn notify_plan(stats: &str, notify_cmd: Option<&str>, env: &ShellEnv) -> (plan: NotifyPlan)
    ensures
        split_at_newline(stats@) is None ==> (plan matches NotifyPlan::ErrorTooltip(m) && m@ == invalid_stats_message()),
        split_at_newline(stats@) matches Some((summary, body)) ==> match notify_cmd {
            None => plan matches NotifyPlan::Desktop { summary: s, body: b } && s@ == summary && b@ == body,
            Some(template) => {
                let command = notify_command(template@, summary, body);
                &&& match prepared_command(command, vars_view(env.vars@), option_chars(env.home)) {
                    Some((p, a)) => plan matches NotifyPlan::Command { program, args } && program@ == p
                        && strings_chars(args@) == a,
                    None => plan matches NotifyPlan::ErrorTooltip(m) && m@ == invalid_notify_command_message(command),
                }
                &&& (shell_words_of(command) matches Some(words) ==> (words.len() > 0 && (forall|i: int| 0 <= i < words.len() ==> is_plain_word(#[trigger] words[i])) ==> (
                    plan matches NotifyPlan::Command { program, args } && program@ == words[0] && strings_chars(args@) == words.drop_first())))
            },
        },
{
    proof {
        reveal_strlit("{summary}");
        reveal_strlit("{body}");
        reveal_strlit("invalid format of sync stats");
        reveal_strlit("invalid notify after sync cmd: ");
    }
    match split_once_newline(stats) {
        None => NotifyPlan::ErrorTooltip("invalid format of sync stats".to_owned()),
        Some((summary, body)) => match notify_cmd {
            None => NotifyPlan::Desktop { summary, body },
            Some(template) => {
                let with_summary = replace_str(template, "{summary}", summary.as_str());
                let command = replace_str(with_summary.as_str(), "{body}", body.as_str());
                match prepare_command(command.as_str(), env) {
                    Ok((program, args)) => NotifyPlan::Command { program, args },
                    Err(_) => {
                        let mut m = String::new();
                        push_str(&mut m, "invalid notify after sync cmd: ");
                        push_str(&mut m, command.as_str());
                        NotifyPlan::ErrorTooltip(m)
                    },
                }
            },
        },
    }
}

} // verus!
