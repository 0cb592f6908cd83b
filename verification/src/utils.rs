//! Small text utilities: decoding HTML entities in feed strings, bubbles of styled text, and
//! turning a configured command line into a program and its arguments.

use vstd::prelude::*;

use crate::style::{spec_add_modifier, spec_patch, SpanView, StyledSpan, TextStyle, MODIFIER_REVERSED};
use crate::unicode::{chars_of, push_char, push_str};
use crate::article_table::same_chars;

verus! {

/// What `htmlescape::decode_html` makes of the characters `s`: the decoded text, or `None`
/// where the text holds an entity that the crate does not accept.
pub uninterp spec fn html_entities_decoded(s: Seq<char>) -> Option<Seq<char>>;

/// The characters of an optional string.
pub open spec fn option_chars(r: Option<String>) -> Option<Seq<char>> {
    match r {
        Some(t) => Some(t@),
        None => None,
    }
}

/// Calls `htmlescape::decode_html`. Its result depends on `s` alone; the crate's source shows
/// that a text without `&` is written out unchanged, and nothing more is claimed.
#[verifier::external_body]
fn decode_html_entities(s: &str) -> (r: Option<String>)
    ensures
        option_chars(r) == html_entities_decoded(s@),
        !s@.contains('&') ==> option_chars(r) == Some(s@),
{
    match htmlescape::decode_html(s) {
        Ok(t) => Some(t),
        Err(_) => None,
    }
}

/// The full-width ampersand that some feeds write in place of `&` in front of an entity.
pub const WIDE_AMPERSAND: char = '\u{FF06}';

/// `c`, with a full-width ampersand read as `&`.
pub open spec fn narrow_ampersand(c: char) -> char {
    if c == WIDE_AMPERSAND { '&' } else { c }
}

/// The characters of `s` with every full-width ampersand read as `&`.
pub open spec fn spec_narrow_ampersands(s: Seq<char>) -> Seq<char> {
    Seq::new(s.len(), |i: int| narrow_ampersand(s[i]))
}

/// What `html_sanitize` gives for `s`: the entity-decoded text once full-width ampersands are
/// narrowed, or the narrowed text itself where it cannot be decoded.
pub open spec fn spec_html_sanitize(s: Seq<char>) -> Seq<char> {
    let narrowed = spec_narrow_ampersands(s);
    match html_entities_decoded(narrowed) {
        Some(t) => t,
        None => narrowed,
    }
}

/// Replaces every full-width ampersand of `s` by `&`.
pub fn narrow_ampersands(s: &str) -> (r: String)
    ensures
        r@ == spec_narrow_ampersands(s@),
{
    let mut r = String::new();
    for c in it: s.chars()
        invariant
            it.seq() == s@,
            r@ == spec_narrow_ampersands(it.seq().take(it.index() as int)),
    {
        let ghost before = it.seq().take(it.index() as int);
        if c == WIDE_AMPERSAND {
            push_char(&mut r, '&');
        } else {
            push_char(&mut r, c);
        }
        proof {
            let after = it.seq().take(it.index() + 1);
            assert(after == before.push(c));
            assert(spec_narrow_ampersands(after) == spec_narrow_ampersands(before).push(
                narrow_ampersand(c),
            ));
        }
    }
    r
}

/// Decodes the HTML entities of a string taken from a feed. Full-width ampersands count as `&`;
/// a string that cannot be decoded (a bare `&`, as in "AT&T") is kept with its full-width
/// ampersands narrowed, undecoded.
pub fn html_sanitize(html_escaped_string: &str) -> (r: String)
    ensures
        r@ == spec_html_sanitize(html_escaped_string@),
        !spec_narrow_ampersands(html_escaped_string@).contains('&') ==> r@
            == html_escaped_string@,
{
    let narrowed = narrow_ampersands(html_escaped_string);
    match decode_html_entities(narrowed.as_str()) {
        Some(decoded) => decoded,
        None => narrowed,
    }
}

/// The style of the edge of a bubble drawn with `icon`: a blank edge is filled in reverse.
pub open spec fn bubble_edge_style(style: TextStyle, icon: char) -> TextStyle {
    if icon != ' ' { style } else { spec_add_modifier(style, MODIFIER_REVERSED) }
}

/// Draws `span` as a bubble: its text in reverse video between the two edge icons.
pub fn to_bubble(span: StyledSpan, left_icon: char, right_icon: char) -> (line: Vec<StyledSpan>)
    ensures
        line@.len() == 3,
        line@[0]@ == (SpanView { text: seq![left_icon], style: bubble_edge_style(span.style, left_icon) }),
        line@[1]@ == (SpanView { text: span.content@, style: spec_add_modifier(span.style, MODIFIER_REVERSED) }),
        line@[2]@ == (SpanView { text: seq![right_icon], style: bubble_edge_style(span.style, right_icon) }),
{
    let style = span.style;
    let mut left = String::new();
    push_char(&mut left, left_icon);
    let mut right = String::new();
    push_char(&mut right, right_icon);
    let left_style = if left_icon != ' ' { style } else { style.reversed() };
    let right_style = if right_icon != ' ' { style } else { style.reversed() };
    let mut line: Vec<StyledSpan> = Vec::new();
    line.push(StyledSpan::styled(left, left_style));
    line.push(StyledSpan::styled(span.content, style.reversed()));
    line.push(StyledSpan::styled(right, right_style));
    line
}

/// Whether `after` is `before` with `style` laid over the style of each span.
pub open spec fn spans_patched(before: Seq<StyledSpan>, after: Seq<StyledSpan>, style: TextStyle) -> bool {
    &&& after.len() == before.len()
    &&& forall|j: int| 0 <= j < after.len() ==> (#[trigger] after[j])@ == (SpanView {
        text: before[j]@.text,
        style: spec_patch(before[j]@.style, style),
    })
}

/// Lays `style` over the style of every span of every line of `text`.
pub fn patch_text_style(text: &mut Vec<Vec<StyledSpan>>, style: TextStyle)
    ensures
        final(text)@.len() == old(text)@.len(),
        forall|i: int| 0 <= i < final(text)@.len() ==> spans_patched(
            #[trigger] old(text)@[i]@,
            final(text)@[i]@,
            style,
        ),
{
    let mut lines: Vec<Vec<StyledSpan>> = Vec::new();
    std::mem::swap(&mut lines, text);
    let ghost original = lines@;
    let mut done: Vec<Vec<StyledSpan>> = Vec::new();
    for line in it: lines.into_iter()
        invariant
            it.seq() == original,
            done@.len() == it.index(),
            forall|k: int| 0 <= k < done@.len() ==> spans_patched(
                #[trigger] original[k]@,
                done@[k]@,
                style,
            ),
    {
        let ghost old_line = line@;
        let mut patched: Vec<StyledSpan> = Vec::new();
        for span in sit: line.into_iter()
            invariant
                sit.seq() == old_line,
                spans_patched(old_line.take(sit.index() as int), patched@, style),
        {
            let n = patched.len();
            let new_style = span.style.patch(style);
            patched.push(StyledSpan::styled(span.content, new_style));
            assert(old_line.take(n + 1)[n as int] == old_line[n as int]);
        }
        assert(old_line.take(old_line.len() as int) == old_line);
        done.push(patched);
    }
    *text = done;
}

/// What `shell_words::split` makes of the command line `line`: its words, or `None` where the
/// quoting is malformed.
pub uninterp spec fn shell_words_of(line: Seq<char>) -> Option<Seq<Seq<char>>>;

/// The characters of each string of `v`.
pub open spec fn strings_chars(v: Seq<String>) -> Seq<Seq<char>> {
    v.map_values(|s: String| s@)
}

/// Calls `shell_words::split`, which splits a command line into words the way a POSIX shell
/// does; its result depends on the line alone, and nothing more is claimed of it.
#[verifier::external_body]
fn split_shell_words(line: &str) -> (r: Result<Vec<String>, shell_words::ParseError>)
    ensures
        match r {
            Ok(words) => shell_words_of(line@) == Some(strings_chars(words@)),
            Err(_) => shell_words_of(line@) is None,
        },
{
    shell_words::split(line)
}

/// Whether shell expansion leaves `word` alone whatever the environment: it holds no `$` and
/// does not start with `~`.
pub open spec fn is_plain_word(word: Seq<char>) -> bool {
    !word.contains('$') && !(word.len() > 0 && word[0] == '~')
}

/// The environment that shell expansion reads, handed over as values: the variables, each as
/// its name and value, and the home directory, if there is one.
pub struct ShellEnv {
    pub vars: Vec<(String, String)>,
    pub home: Option<String>,
}

/// The variables as characters.
pub open spec fn vars_view(vars: Seq<(String, String)>) -> Seq<(Seq<char>, Seq<char>)> {
    vars.map_values(|v: (String, String)| (v.0@, v.1@))
}

/// The value of the first variable named `name` among `vars`, if any.
pub open spec fn spec_env_lookup(vars: Seq<(Seq<char>, Seq<char>)>, name: Seq<char>) -> Option<Seq<char>>
    decreases vars.len(),
{
    if vars.len() == 0 {
        None
    } else if vars[0].0 == name {
        Some(vars[0].1)
    } else {
        spec_env_lookup(vars.drop_first(), name)
    }
}

/// Looks up the variable `name` among `vars`: its value, or an error when it is not set (as
/// reading an unset variable of the process is).
pub fn env_lookup(vars: &Vec<(String, String)>, name: &str) -> (r: Result<Option<String>, ()>)
    ensures
        match r {
            Ok(Some(v)) => spec_env_lookup(vars_view(vars@), name@) == Some(v@),
            Ok(None) => false,
            Err(()) => spec_env_lookup(vars_view(vars@), name@) is None,
        },
{
    let ghost vv = vars_view(vars@);
    let mut i: usize = 0;
    assert(vv.subrange(0, vv.len() as int) =~= vv);
    while i < vars.len()
        invariant
            vv == vars_view(vars@),
            i <= vars@.len(),
            spec_env_lookup(vv.subrange(i as int, vv.len() as int), name@) == spec_env_lookup(vv, name@),
        decreases vars.len() - i,
    {
        let ghost rest = vv.subrange(i as int, vv.len() as int);
        assert(rest.drop_first() =~= vv.subrange(i + 1, vv.len() as int));
        assert(rest[0] == (vars@[i as int].0@, vars@[i as int].1@));
        let ac = chars_of(vars[i].0.as_str());
        if same_chars(ac.as_slice(), name) {
            return Ok(Some(vars[i].1.clone()));
        }
        i = i + 1;
    }
    assert(vv.subrange(i as int, vv.len() as int).len() == 0);
    Err(())
}

/// What `shellexpand::full_with_context` makes of `word` when variables are looked up among
/// `vars` (an unset one is an error) and `home` is the home directory: the expanded word, or
/// `None` where a variable is not set.
pub uninterp spec fn shell_expansion(word: Seq<char>, vars: Seq<(Seq<char>, Seq<char>)>, home: Option<Seq<char>>) -> Option<Seq<char>>;

/// Calls `shellexpand::full_with_context`, which replaces variables (looked up by `env_lookup`
/// in `env`) and a leading `~` (by the home directory of `env`); its result depends on the word
/// and `env` alone. The crate's source shows that a word without `$` that does not start with
/// `~` comes back unchanged.
#[verifier::external_body]
fn expand_shell_word(word: &str, env: &ShellEnv) -> (r: Option<String>)
    ensures
        option_chars(r) == shell_expansion(word@, vars_view(env.vars@), option_chars(env.home)),
        is_plain_word(word@) ==> option_chars(r) == Some(word@),
{
    let home = env.home.as_deref();
    match shellexpand::full_with_context(word, || home, |name: &str| env_lookup(&env.vars, name)) {
        Ok(expanded) => Some(expanded.into_owned()),
        Err(_) => None,
    }
}

/// Why a command line could not be turned into a program and its arguments.
#[derive(Debug)]
pub enum CommandError {
    /// The quoting of the line is malformed.
    Split(shell_words::ParseError),
    /// This word names an environment variable that is not set.
    Expansion(String),
    /// The line holds no word; the message names the line.
    Invalid(String),
}

/// The message of a command line that holds no word.
pub open spec fn invalid_command_message(line: Seq<char>) -> Seq<char> {
    "Invalid command: "@ + line + " (expanded: [])"@
}

/// Splits the expanded words of `command_line` into the program and its arguments; a line
/// without words is an invalid command.
pub fn command_from_words(command_line: &str, words: Vec<String>) -> (r: Result<
    (String, Vec<String>),
    CommandError,
>)
    ensures
        words@.len() == 0 ==> (r matches Err(CommandError::Invalid(m)) && m@
            == invalid_command_message(command_line@)),
        words@.len() > 0 ==> (r matches Ok((program, args)) && program == words@[0] && args@
            == words@.drop_first()),
{
    if words.len() == 0 {
        let mut m = String::new();
        push_str(&mut m, "Invalid command: ");
        push_str(&mut m, command_line);
        push_str(&mut m, " (expanded: [])");
        proof {
            reveal_strlit("Invalid command: ");
            reveal_strlit(" (expanded: [])");
        }
        Err(CommandError::Invalid(m))
    } else {
        let mut rest = words;
        let program = rest.remove(0);
        Ok((program, rest))
    }
}

/// What expanding the words `words` in `env` gives: the expanded words in order, or the first
/// word whose expansion fails.
pub open spec fn spec_expansions(words: Seq<Seq<char>>, vars: Seq<(Seq<char>, Seq<char>)>, home: Option<Seq<char>>) -> Result<Seq<Seq<char>>, Seq<char>>
    decreases words.len(),
{
    if words.len() == 0 {
        Ok(Seq::empty())
    } else {
        match spec_expansions(words.drop_last(), vars, home) {
            Err(w) => Err(w),
            Ok(v) => match shell_expansion(words.last(), vars, home) {
                Some(e) => Ok(v.push(e)),
                None => Err(words.last()),
            },
        }
    }
}

/// What preparing the command line `line` in the environment `vars`, `home` gives: the split
/// error when the quoting is malformed; otherwise the expansion error naming the first word
/// whose expansion fails; otherwise the invalid-command error when there is no word; otherwise
/// the first expanded word as the program and the others as its arguments.
pub open spec fn command_prepared(line: Seq<char>, vars: Seq<(Seq<char>, Seq<char>)>, home: Option<Seq<char>>, r: Result<(String, Vec<String>), CommandError>) -> bool {
    match shell_words_of(line) {
        None => r matches Err(CommandError::Split(_)),
        Some(words) => match spec_expansions(words, vars, home) {
            Err(w) => r matches Err(CommandError::Expansion(x)) && x@ == w,
            Ok(ex) => if ex.len() == 0 {
                r matches Err(CommandError::Invalid(m)) && m@ == invalid_command_message(line)
            } else {
                r matches Ok((program, args)) && program@ == ex[0] && strings_chars(args@) == ex.drop_first()
            },
        },
    }
}

/// The program and arguments the command line `line` gives in the environment `vars`, `home`,
/// or `None` where preparing it fails.
pub open spec fn prepared_command(line: Seq<char>, vars: Seq<(Seq<char>, Seq<char>)>, home: Option<Seq<char>>) -> Option<(Seq<char>, Seq<Seq<char>>)> {
    match shell_words_of(line) {
        None => None,
        Some(words) => match spec_expansions(words, vars, home) {
            Err(_) => None,
            Ok(ex) => if ex.len() == 0 { None } else { Some((ex[0], ex.drop_first())) },
        },
    }
}

/// Where every word of the line is plain, preparing it gives the words themselves.
pub open spec fn plain_words_stay(line: Seq<char>, r: Result<(String, Vec<String>), CommandError>) -> bool {
    shell_words_of(line) matches Some(words) ==> (words.len() > 0 && (forall|i: int|
        0 <= i < words.len() ==> is_plain_word(#[trigger] words[i])) ==> (r matches Ok((program, args))
        && program@ == words[0] && strings_chars(args@) == words.drop_first()))
}

/// What expansion gives for the words of a command line, each word paired with its expansion
/// (`None` where expanding it failed): the expanded words in order, or the first word whose
/// expansion failed.
pub open spec fn spec_expanded(outcomes: Seq<(String, Option<String>)>) -> Result<Seq<Seq<char>>, Seq<char>>
    decreases outcomes.len(),
{
    if outcomes.len() == 0 {
        Ok(Seq::empty())
    } else {
        match spec_expanded(outcomes.drop_last()) {
            Err(w) => Err(w),
            Ok(v) => match outcomes.last().1 {
                Some(e) => Ok(v.push(e@)),
                None => Err(outcomes.last().0@),
            },
        }
    }
}

/// `spec_expanded` succeeds exactly when every expansion did, with the expansions in order, and
/// otherwise names a word whose expansion failed.
pub proof fn lemma_spec_expanded(outcomes: Seq<(String, Option<String>)>)
    ensures
        spec_expanded(outcomes) is Ok <==> forall|k: int| 0 <= k < outcomes.len() ==> (#[trigger] outcomes[k]).1 is Some,
        spec_expanded(outcomes) matches Ok(v) ==> v.len() == outcomes.len() && forall|k: int|
            0 <= k < outcomes.len() ==> v[k] == (#[trigger] outcomes[k]).1->0@,
        spec_expanded(outcomes) matches Err(w) ==> exists|k: int|
            0 <= k < outcomes.len() && (#[trigger] outcomes[k]).1 is None && w == outcomes[k].0@,
    decreases outcomes.len(),
{
    if outcomes.len() > 0 {
        let p = outcomes.drop_last();
        lemma_spec_expanded(p);
        assert forall|k: int| 0 <= k < p.len() implies p[k] == outcomes[k] by {}
        let n = outcomes.len() - 1;
        assert(outcomes.last() == outcomes[n]);
        if spec_expanded(p) is Err {
            let k = choose|k: int| 0 <= k < p.len() && (#[trigger] p[k]).1 is None && spec_expanded(p)->Err_0 == p[k].0@;
            assert(outcomes[k] == p[k]);
        }
    }
}

/// The expanded words of a command line from what expansion made of each word (`outcomes`,
/// each word with its expansion, `None` where it failed): the expansions in order, or the
/// expansion error naming the first word that could not be expanded.
pub fn expanded_words(outcomes: Vec<(String, Option<String>)>) -> (r: Result<Vec<String>, CommandError>)
    ensures
        match r {
            Ok(v) => spec_expanded(outcomes@) == Ok::<Seq<Seq<char>>, Seq<char>>(strings_chars(v@)),
            Err(CommandError::Expansion(w)) => spec_expanded(outcomes@) == Err::<Seq<Seq<char>>, Seq<char>>(w@),
            Err(_) => false,
        },
{
    let ghost all = outcomes@;
    let mut rest = outcomes;
    let mut done: Vec<String> = Vec::new();
    assert(all.take(0) =~= Seq::<(String, Option<String>)>::empty());
    assert(strings_chars(done@) =~= Seq::<Seq<char>>::empty());
    while rest.len() > 0
        invariant
            all == outcomes@,
            done@.len() + rest@.len() == all.len(),
            rest@ == all.subrange(done@.len() as int, all.len() as int),
            spec_expanded(all.take(done@.len() as int)) == Ok::<Seq<Seq<char>>, Seq<char>>(strings_chars(done@)),
        decreases rest.len(),
    {
        let i = done.len();
        let (word, outcome) = rest.remove(0);
        proof {
            assert(all.take(i + 1).drop_last() =~= all.take(i as int));
            assert(all.take(i + 1).last() == all[i as int]);
            assert(all[i as int] == (word, outcome));
        }
        let ghost before = done@;
        match outcome {
            Some(e) => {
                done.push(e);
                assert(done@ == before.push(e));
                assert(strings_chars(done@) =~= strings_chars(before).push(e@));
                assert(rest@ =~= all.subrange(done@.len() as int, all.len() as int));
            },
            None => {
                proof {
                    assert(spec_expanded(all.take(i + 1)) == Err::<Seq<Seq<char>>, Seq<char>>(word@));
                    lemma_expanded_err_stays(all, i as int + 1);
                }
                return Err(CommandError::Expansion(word));
            },
        }
    }
    proof {
        assert(all.take(all.len() as int) =~= all);
    }
    Ok(done)
}

/// Once expansion fails on a prefix, it fails with the same word on every longer prefix.
proof fn lemma_expanded_err_stays(all: Seq<(String, Option<String>)>, n: int)
    requires
        0 <= n <= all.len(),
        spec_expanded(all.take(n)) is Err,
    ensures
        spec_expanded(all) == spec_expanded(all.take(n)),
    decreases all.len() - n,
{
    if n < all.len() {
        assert(all.take(n + 1).drop_last() =~= all.take(n));
        lemma_expanded_err_stays(all, n + 1);
    } else {
        assert(all.take(n) =~= all);
    }
}

/// The outcomes of expanding `words` agree with `spec_expansions`.
proof fn lemma_outcomes_expansions(o: Seq<(String, Option<String>)>, words: Seq<Seq<char>>, vars: Seq<(Seq<char>, Seq<char>)>, home: Option<Seq<char>>)
    requires
        o.len() == words.len(),
        forall|k: int| 0 <= k < o.len() ==> (#[trigger] o[k]).0@ == words[k] && option_chars(o[k].1) == shell_expansion(words[k], vars, home),
    ensures
        match spec_expanded(o) {
            Ok(v) => spec_expansions(words, vars, home) == Ok::<Seq<Seq<char>>, Seq<char>>(v),
            Err(w) => spec_expansions(words, vars, home) == Err::<Seq<Seq<char>>, Seq<char>>(w),
        },
    decreases o.len(),
{
    if o.len() > 0 {
        let n = o.len() - 1;
        assert forall|k: int| 0 <= k < n implies (#[trigger] o.drop_last()[k]).0@ == words.drop_last()[k] && option_chars(o.drop_last()[k].1) == shell_expansion(words.drop_last()[k], vars, home) by {
            assert(o.drop_last()[k] == o[k]);
        }
        lemma_outcomes_expansions(o.drop_last(), words.drop_last(), vars, home);
        assert(o.last() == o[n]);
        assert(words.last() == words[n]);
    }
}

/// Turns a configured command line into a program and its arguments: the line is split into
/// words as a shell does, the variables and a leading `~` of each word are expanded in `env`
/// (the first word that cannot be expanded is the error), and the first word is the program.
pub fn prepare_command(command_line: &str, env: &ShellEnv) -> (r: Result<(String, Vec<String>), CommandError>)
    ensures
        command_prepared(command_line@, vars_view(env.vars@), option_chars(env.home), r),
        plain_words_stay(command_line@, r),
{
    let ghost vars = vars_view(env.vars@);
    let ghost home = option_chars(env.home);
    let words = match split_shell_words(command_line) {
        Ok(words) => words,
        Err(e) => {
            return Err(CommandError::Split(e));
        },
    };
    let ghost split = strings_chars(words@);
    let mut outcomes: Vec<(String, Option<String>)> = Vec::new();
    let mut i: usize = 0;
    while i < words.len()
        invariant
            split == strings_chars(words@),
            shell_words_of(command_line@) == Some(split),
            vars == vars_view(env.vars@),
            home == option_chars(env.home),
            i <= words.len(),
            outcomes@.len() == i,
            forall|k: int| 0 <= k < i ==> (#[trigger] outcomes@[k]).0@ == split[k] && option_chars(outcomes@[k].1)
                == shell_expansion(split[k], vars, home),
            forall|k: int|
                0 <= k < i && is_plain_word(split[k]) ==> option_chars((#[trigger] outcomes@[k]).1) == Some(split[k]),
        decreases words.len() - i,
    {
        let e = expand_shell_word(words[i].as_str(), env);
        let w = words[i].clone();
        outcomes.push((w, e));
        i = i + 1;
    }
    let ghost o = outcomes@;
    proof {
        lemma_spec_expanded(o);
        lemma_outcomes_expansions(o, split, vars, home);
    }
    let expanded = match expanded_words(outcomes) {
        Ok(v) => v,
        Err(e) => {
            proof {
                if e is Expansion {
                    let w = e->Expansion_0;
                    let k = choose|k: int| 0 <= k < o.len() && (#[trigger] o[k]).1 is None && w@ == o[k].0@;
                    if is_plain_word(split[k]) {
                        assert(option_chars(o[k].1) == Some(split[k]));
                    }
                }
            }
            return Err(e);
        },
    };
    let ghost all = expanded@;
    proof {
        assert(strings_chars(all).len() == o.len());
        assert forall|k: int| 0 <= k < all.len() implies all[k]@ == o[k].1->0@ by {
            assert(strings_chars(all)[k] == all[k]@);
        }
    }
    let r = command_from_words(command_line, expanded);
    proof {
        if all.len() > 0 {
            assert(strings_chars(all.drop_first()) =~= strings_chars(all).drop_first());
            if forall|k: int| 0 <= k < split.len() ==> is_plain_word(#[trigger] split[k]) {
                assert forall|k: int| 0 <= k < all.len() implies all[k]@ == split[k] by {
                    assert(is_plain_word(split[k]));
                    assert(option_chars(o[k].1) == Some(split[k]));
                }
                assert(strings_chars(all.drop_first()) =~= split.drop_first()) by {
                    assert forall|k: int| 0 <= k < split.len() - 1 implies strings_chars(
                        all.drop_first(),
                    )[k] == split.drop_first()[k] by {
                        assert(all.drop_first()[k] == all[k + 1]);
                    }
                }
            }
        }
    }
    r
}

} // verus!
