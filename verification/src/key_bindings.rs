//! The default key bindings: the key sequence, as the configuration writes it, and the command
//! lines it runs, in order. User bindings are merged over these.

use indexmap::IndexMap;
use vstd::prelude::*;

verus! {

/// One binding as characters: its key sequence and its command lines.
pub open spec fn binding_view(b: (String, Vec<String>)) -> (Seq<char>, Seq<Seq<char>>) {
    (b.0@, b.1@.map_values(|c: String| c@))
}

/// The bindings of `v` as characters.
pub open spec fn bindings_view(v: Seq<(String, Vec<String>)>) -> Seq<(Seq<char>, Seq<Seq<char>>)> {
    v.map_values(|b: (String, Vec<String>)| binding_view(b))
}

/// Appends the binding of `keys` to `commands`.
fn push_binding(r: &mut Vec<(String, Vec<String>)>, keys: &str, commands: Vec<String>)
    ensures
        bindings_view(final(r)@) == bindings_view(old(r)@).push((keys@, commands@.map_values(|c: String| c@))),
{
    r.push((keys.to_owned(), commands));
    assert(bindings_view(r@) =~= bindings_view(old(r)@).push((keys@, commands@.map_values(|c: String| c@))));
}

/// The command lines `a`, `b` and `c`, as many as are given.
fn commands_of(a: &str, b: Option<&str>, c: Option<&str>) -> (v: Vec<String>)
    ensures
        v@.map_values(|s: String| s@) == match (b, c) {
            (Some(b), Some(c)) => seq![a@, b@, c@],
            (Some(b), None) => seq![a@, b@],
            _ => seq![a@],
        },
{
    let mut v: Vec<String> = Vec::new();
    v.push(a.to_owned());
    match b {
        Some(b) => {
            v.push(b.to_owned());
            match c {
                Some(c) => {
                    v.push(c.to_owned());
                    assert(v@.map_values(|s: String| s@) =~= seq![a@, b@, c@]);
                },
                None => {
                    assert(v@.map_values(|s: String| s@) =~= seq![a@, b@]);
                },
            }
        },
        None => {
            assert(v@.map_values(|s: String| s@) =~= seq![a@]);
        },
    }
    v
}

/// Part 1 of the default bindings, in the order they are listed.
pub open spec fn default_bindings_1() -> Seq<(Seq<char>, Seq<Seq<char>>)> {
    seq![
        ("up"@, seq!["up"@]),
        ("down"@, seq!["down"@]),
        ("C-j"@, seq!["in feeds down"@]),
        ("C-k"@, seq!["in feeds up"@]),
        ("J"@, seq!["in content down"@]),
        ("K"@, seq!["in content up"@]),
        ("M-j"@, seq!["in articles down"@]),
        ("M-k"@, seq!["in articles up"@]),
        ("C-h"@, seq!["left"@]),
        ("C-l"@, seq!["right"@]),
        ("left"@, seq!["left"@]),
        ("right"@, seq!["right"@]),
        ("j"@, seq!["down"@]),
        ("k"@, seq!["up"@])
    ]
}

fn push_defaults_1(r: &mut Vec<(String, Vec<String>)>)
    ensures
        bindings_view(final(r)@) == bindings_view(old(r)@) + default_bindings_1(),
{
    let ghost start = bindings_view(r@);
    let cmds = commands_of("up", None, None);
    push_binding(r, "up", cmds);
    let cmds = commands_of("down", None, None);
    push_binding(r, "down", cmds);
    let cmds = commands_of("in feeds down", None, None);
    push_binding(r, "C-j", cmds);
    let cmds = commands_of("in feeds up", None, None);
    push_binding(r, "C-k", cmds);
    let cmds = commands_of("in content down", None, None);
    push_binding(r, "J", cmds);
    let cmds = commands_of("in content up", None, None);
    push_binding(r, "K", cmds);
    let cmds = commands_of("in articles down", None, None);
    push_binding(r, "M-j", cmds);
    let cmds = commands_of("in articles up", None, None);
    push_binding(r, "M-k", cmds);
    let cmds = commands_of("left", None, None);
    push_binding(r, "C-h", cmds);
    let cmds = commands_of("right", None, None);
    push_binding(r, "C-l", cmds);
    let cmds = commands_of("left", None, None);
    push_binding(r, "left", cmds);
    let cmds = commands_of("right", None, None);
    push_binding(r, "right", cmds);
    let cmds = commands_of("down", None, None);
    push_binding(r, "j", cmds);
    let cmds = commands_of("up", None, None);
    push_binding(r, "k", cmds);
    assert(bindings_view(r@) =~= start + default_bindings_1());
}

/// Part 2 of the default bindings, in the order they are listed.
pub open spec fn default_bindings_2() -> Seq<(Seq<char>, Seq<Seq<char>>)> {
    seq![
        ("enter"@, seq!["_submit"@]),
        ("esc"@, seq!["_abort"@]),
        ("C-g"@, seq!["_abort"@]),
        ("C-u"@, seq!["_clear"@]),
        ("space"@, seq!["toggle"@]),
        ("C-f"@, seq!["pagedown"@]),
        ("C-b"@, seq!["pageup"@]),
        ("g g"@, seq!["gotofirst"@]),
        ("G"@, seq!["gotolast"@]),
        ("q"@, seq!["confirm quit"@]),
        ("C-c"@, seq!["quit"@]),
        ("C-r"@, seq!["reloadconfig"@]),
        ("x"@, seq!["scrape"@]),
        ("p"@, seq!["images"@])
    ]
}

fn push_defaults_2(r: &mut Vec<(String, Vec<String>)>)
    ensures
        bindings_view(final(r)@) == bindings_view(old(r)@) + default_bindings_2(),
{
    let ghost start = bindings_view(r@);
    let cmds = commands_of("_submit", None, None);
    push_binding(r, "enter", cmds);
    let cmds = commands_of("_abort", None, None);
    push_binding(r, "esc", cmds);
    let cmds = commands_of("_abort", None, None);
    push_binding(r, "C-g", cmds);
    let cmds = commands_of("_clear", None, None);
    push_binding(r, "C-u", cmds);
    let cmds = commands_of("toggle", None, None);
    push_binding(r, "space", cmds);
    let cmds = commands_of("pagedown", None, None);
    push_binding(r, "C-f", cmds);
    let cmds = commands_of("pageup", None, None);
    push_binding(r, "C-b", cmds);
    let cmds = commands_of("gotofirst", None, None);
    push_binding(r, "g g", cmds);
    let cmds = commands_of("gotolast", None, None);
    push_binding(r, "G", cmds);
    let cmds = commands_of("confirm quit", None, None);
    push_binding(r, "q", cmds);
    let cmds = commands_of("quit", None, None);
    push_binding(r, "C-c", cmds);
    let cmds = commands_of("reloadconfig", None, None);
    push_binding(r, "C-r", cmds);
    let cmds = commands_of("scrape", None, None);
    push_binding(r, "x", cmds);
    let cmds = commands_of("images", None, None);
    push_binding(r, "p", cmds);
    assert(bindings_view(r@) =~= start + default_bindings_2());
}

/// Part 3 of the default bindings, in the order they are listed.
pub open spec fn default_bindings_3() -> Seq<(Seq<char>, Seq<Seq<char>>)> {
    seq![
        ("g f"@, seq!["focus feeds"@]),
        ("g a"@, seq!["focus articles"@]),
        ("g c"@, seq!["focus content"@]),
        (":"@, seq!["cmd"@]),
        ("l"@, seq!["next"@]),
        ("h"@, seq!["prev"@]),
        ("tab"@, seq!["nextc"@]),
        ("backtab"@, seq!["prevc"@]),
        ("y"@, seq!["share clipboard"@]),
        ("o"@, seq!["open"@, "in articles read"@, "in articles nextunread"@]),
        ("O"@, seq!["open unread"@, "confirm in articles read %"@]),
        ("s"@, seq!["sync"@]),
        ("r"@, seq!["read"@, "nextunread"@]),
        ("t"@, seq!["cmd tag"@])
    ]
}

fn push_defaults_3(r: &mut Vec<(String, Vec<String>)>)
    ensures
        bindings_view(final(r)@) == bindings_view(old(r)@) + default_bindings_3(),
{
    let ghost start = bindings_view(r@);
    let cmds = commands_of("focus feeds", None, None);
    push_binding(r, "g f", cmds);
    let cmds = commands_of("focus articles", None, None);
    push_binding(r, "g a", cmds);
    let cmds = commands_of("focus content", None, None);
    push_binding(r, "g c", cmds);
    let cmds = commands_of("cmd", None, None);
    push_binding(r, ":", cmds);
    let cmds = commands_of("next", None, None);
    push_binding(r, "l", cmds);
    let cmds = commands_of("prev", None, None);
    push_binding(r, "h", cmds);
    let cmds = commands_of("nextc", None, None);
    push_binding(r, "tab", cmds);
    let cmds = commands_of("prevc", None, None);
    push_binding(r, "backtab", cmds);
    let cmds = commands_of("share clipboard", None, None);
    push_binding(r, "y", cmds);
    let cmds = commands_of("open", Some("in articles read"), Some("in articles nextunread"));
    push_binding(r, "o", cmds);
    let cmds = commands_of("open unread", Some("confirm in articles read %"), None);
    push_binding(r, "O", cmds);
    let cmds = commands_of("sync", None, None);
    push_binding(r, "s", cmds);
    let cmds = commands_of("read", Some("nextunread"), None);
    push_binding(r, "r", cmds);
    let cmds = commands_of("cmd tag", None, None);
    push_binding(r, "t", cmds);
    assert(bindings_view(r@) =~= start + default_bindings_3());
}

/// Part 4 of the default bindings, in the order they are listed.
pub open spec fn default_bindings_4() -> Seq<(Seq<char>, Seq<Seq<char>>)> {
    seq![
        ("T"@, seq!["cmd untag"@]),
        ("R"@, seq!["confirm in articles read %"@]),
        ("0 r"@, seq!["confirm in articles read above"@]),
        ("$ r"@, seq!["confirm in articles read below"@]),
        ("M-r"@, seq!["cmd read"@]),
        ("u"@, seq!["unread"@]),
        ("U"@, seq!["confirm in articles unread %"@]),
        ("0 u"@, seq!["confirm in articles unread above"@]),
        ("$ u"@, seq!["confirm in articles unread below"@]),
        ("M-u"@, seq!["cmd unread"@]),
        ("m"@, seq!["mark"@]),
        ("M"@, seq!["confirm in articles mark %"@]),
        ("0 m"@, seq!["confirm in articles mark above"@]),
        ("$ m"@, seq!["confirm in articles mark below"@])
    ]
}

fn push_defaults_4(r: &mut Vec<(String, Vec<String>)>)
    ensures
        bindings_view(final(r)@) == bindings_view(old(r)@) + default_bindings_4(),
{
    let ghost start = bindings_view(r@);
    let cmds = commands_of("cmd untag", None, None);
    push_binding(r, "T", cmds);
    let cmds = commands_of("confirm in articles read %", None, None);
    push_binding(r, "R", cmds);
    let cmds = commands_of("confirm in articles read above", None, None);
    push_binding(r, "0 r", cmds);
    let cmds = commands_of("confirm in articles read below", None, None);
    push_binding(r, "$ r", cmds);
    let cmds = commands_of("cmd read", None, None);
    push_binding(r, "M-r", cmds);
    let cmds = commands_of("unread", None, None);
    push_binding(r, "u", cmds);
    let cmds = commands_of("confirm in articles unread %", None, None);
    push_binding(r, "U", cmds);
    let cmds = commands_of("confirm in articles unread above", None, None);
    push_binding(r, "0 u", cmds);
    let cmds = commands_of("confirm in articles unread below", None, None);
    push_binding(r, "$ u", cmds);
    let cmds = commands_of("cmd unread", None, None);
    push_binding(r, "M-u", cmds);
    let cmds = commands_of("mark", None, None);
    push_binding(r, "m", cmds);
    let cmds = commands_of("confirm in articles mark %", None, None);
    push_binding(r, "M", cmds);
    let cmds = commands_of("confirm in articles mark above", None, None);
    push_binding(r, "0 m", cmds);
    let cmds = commands_of("confirm in articles mark below", None, None);
    push_binding(r, "$ m", cmds);
    assert(bindings_view(r@) =~= start + default_bindings_4());
}

/// Part 5 of the default bindings, in the order they are listed.
pub open spec fn default_bindings_5() -> Seq<(Seq<char>, Seq<Seq<char>>)> {
    seq![
        ("M-m"@, seq!["cmd mark"@]),
        ("v"@, seq!["unmark"@]),
        ("V"@, seq!["confirm in articles unmark %"@]),
        ("0 v"@, seq!["confirm in articles unmark above"@]),
        ("$ v"@, seq!["confirm in articles unmark below"@]),
        ("M-v"@, seq!["cmd unmark"@]),
        ("; ;"@, seq!["cmd hintfollow"@]),
        ("; y"@, seq!["cmd hintshare clipboard"@]),
        ("; s"@, seq!["cmd hintshare"@]),
        ("C-x"@, seq!["clear"@]),
        ("C-z"@, seq!["undo"@]),
        ("f"@, seq!["flag"@, "in articles down"@]),
        ("0 f"@, seq!["flag above"@]),
        ("$ f"@, seq!["flag below"@])
    ]
}

fn push_defaults_5(r: &mut Vec<(String, Vec<String>)>)
    ensures
        bindings_view(final(r)@) == bindings_view(old(r)@) + default_bindings_5(),
{
    let ghost start = bindings_view(r@);
    let cmds = commands_of("cmd mark", None, None);
    push_binding(r, "M-m", cmds);
    let cmds = commands_of("unmark", None, None);
    push_binding(r, "v", cmds);
    let cmds = commands_of("confirm in articles unmark %", None, None);
    push_binding(r, "V", cmds);
    let cmds = commands_of("confirm in articles unmark above", None, None);
    push_binding(r, "0 v", cmds);
    let cmds = commands_of("confirm in articles unmark below", None, None);
    push_binding(r, "$ v", cmds);
    let cmds = commands_of("cmd unmark", None, None);
    push_binding(r, "M-v", cmds);
    let cmds = commands_of("cmd hintfollow", None, None);
    push_binding(r, "; ;", cmds);
    let cmds = commands_of("cmd hintshare clipboard", None, None);
    push_binding(r, "; y", cmds);
    let cmds = commands_of("cmd hintshare", None, None);
    push_binding(r, "; s", cmds);
    let cmds = commands_of("clear", None, None);
    push_binding(r, "C-x", cmds);
    let cmds = commands_of("undo", None, None);
    push_binding(r, "C-z", cmds);
    let cmds = commands_of("flag", Some("in articles down"), None);
    push_binding(r, "f", cmds);
    let cmds = commands_of("flag above", None, None);
    push_binding(r, "0 f", cmds);
    let cmds = commands_of("flag below", None, None);
    push_binding(r, "$ f", cmds);
    assert(bindings_view(r@) =~= start + default_bindings_5());
}

/// Part 6 of the default bindings, in the order they are listed.
pub open spec fn default_bindings_6() -> Seq<(Seq<char>, Seq<Seq<char>>)> {
    seq![
        ("F"@, seq!["flag all"@]),
        ("M-f"@, seq!["cmd flag"@]),
        ("d"@, seq!["unflag"@, "in articles down"@]),
        ("0 d"@, seq!["unflag above"@]),
        ("$ d"@, seq!["unflag below"@]),
        ("D"@, seq!["unflag all"@]),
        ("M-d"@, seq!["cmd unflag"@]),
        ("i"@, seq!["flaginvert"@, "in articles down"@]),
        ("0 i"@, seq!["flaginvert above"@]),
        ("$ i"@, seq!["flaginvert below"@]),
        ("I"@, seq!["flaginvert all"@]),
        ("M-i"@, seq!["cmd flaginvert"@]),
        ("1"@, seq!["show all"@]),
        ("2"@, seq!["show unread"@])
    ]
}

fn push_defaults_6(r: &mut Vec<(String, Vec<String>)>)
    ensures
        bindings_view(final(r)@) == bindings_view(old(r)@) + default_bindings_6(),
{
    let ghost start = bindings_view(r@);
    let cmds = commands_of("flag all", None, None);
    push_binding(r, "F", cmds);
    let cmds = commands_of("cmd flag", None, None);
    push_binding(r, "M-f", cmds);
    let cmds = commands_of("unflag", Some("in articles down"), None);
    push_binding(r, "d", cmds);
    let cmds = commands_of("unflag above", None, None);
    push_binding(r, "0 d", cmds);
    let cmds = commands_of("unflag below", None, None);
    push_binding(r, "$ d", cmds);
    let cmds = commands_of("unflag all", None, None);
    push_binding(r, "D", cmds);
    let cmds = commands_of("cmd unflag", None, None);
    push_binding(r, "M-d", cmds);
    let cmds = commands_of("flaginvert", Some("in articles down"), None);
    push_binding(r, "i", cmds);
    let cmds = commands_of("flaginvert above", None, None);
    push_binding(r, "0 i", cmds);
    let cmds = commands_of("flaginvert below", None, None);
    push_binding(r, "$ i", cmds);
    let cmds = commands_of("flaginvert all", None, None);
    push_binding(r, "I", cmds);
    let cmds = commands_of("cmd flaginvert", None, None);
    push_binding(r, "M-i", cmds);
    let cmds = commands_of("show all", None, None);
    push_binding(r, "1", cmds);
    let cmds = commands_of("show unread", None, None);
    push_binding(r, "2", cmds);
    assert(bindings_view(r@) =~= start + default_bindings_6());
}

/// Part 7 of the default bindings, in the order they are listed.
pub open spec fn default_bindings_7() -> Seq<(Seq<char>, Seq<Seq<char>>)> {
    seq![
        ("3"@, seq!["show marked"@]),
        ("z"@, seq!["zen"@]),
        ("/"@, seq!["_search"@]),
        ("n"@, seq!["searchnext"@]),
        ("N"@, seq!["searchprev"@]),
        ("="@, seq!["cmd filter "@]),
        ("+ r"@, seq!["filterclear"@]),
        ("+ +"@, seq!["filterapply"@]),
        ("\\"@, seq!["cmd sort"@]),
        ("| |"@, seq!["sortreverse"@]),
        ("| r"@, seq!["sortclear"@]),
        ("c w"@, seq!["cmd rename"@]),
        ("c d"@, seq!["confirm remove"@]),
        ("c x"@, seq!["confirm removeall"@])
    ]
}

fn push_defaults_7(r: &mut Vec<(String, Vec<String>)>)
    ensures
        bindings_view(final(r)@) == bindings_view(old(r)@) + default_bindings_7(),
{
    let ghost start = bindings_view(r@);
    let cmds = commands_of("show marked", None, None);
    push_binding(r, "3", cmds);
    let cmds = commands_of("zen", None, None);
    push_binding(r, "z", cmds);
    let cmds = commands_of("_search", None, None);
    push_binding(r, "/", cmds);
    let cmds = commands_of("searchnext", None, None);
    push_binding(r, "n", cmds);
    let cmds = commands_of("searchprev", None, None);
    push_binding(r, "N", cmds);
    let cmds = commands_of("cmd filter ", None, None);
    push_binding(r, "=", cmds);
    let cmds = commands_of("filterclear", None, None);
    push_binding(r, "+ r", cmds);
    let cmds = commands_of("filterapply", None, None);
    push_binding(r, "+ +", cmds);
    let cmds = commands_of("cmd sort", None, None);
    push_binding(r, "\\", cmds);
    let cmds = commands_of("sortreverse", None, None);
    push_binding(r, "| |", cmds);
    let cmds = commands_of("sortclear", None, None);
    push_binding(r, "| r", cmds);
    let cmds = commands_of("cmd rename", None, None);
    push_binding(r, "c w", cmds);
    let cmds = commands_of("confirm remove", None, None);
    push_binding(r, "c d", cmds);
    let cmds = commands_of("confirm removeall", None, None);
    push_binding(r, "c x", cmds);
    assert(bindings_view(r@) =~= start + default_bindings_7());
}

/// Part 8 of the default bindings, in the order they are listed.
pub open spec fn default_bindings_8() -> Seq<(Seq<char>, Seq<Seq<char>>)> {
    seq![
        ("c f"@, seq!["cmd feedadd"@]),
        ("c e"@, seq!["confirm feedadd https://github.com/christo-auer/eilmeldung/releases.atom eilmeldung releases"@]),
        ("c a"@, seq!["cmd categoryadd"@]),
        ("c u"@, seq!["cmd feedchangeurl"@]),
        ("c y"@, seq!["yank"@]),
        ("c p"@, seq!["paste after"@]),
        ("c P"@, seq!["paste before"@]),
        ("c c"@, seq!["cmd tagchangecolor"@]),
        ("c s"@, seq!["confirm sortfeeds"@]),
        ("S"@, seq!["cmd share"@]),
        ("e"@, seq!["openenclosure"@]),
        ("E"@, seq!["cmd openenclosure"@]),
        ("?"@, seq!["helpinput"@])
    ]
}

fn push_defaults_8(r: &mut Vec<(String, Vec<String>)>)
    ensures
        bindings_view(final(r)@) == bindings_view(old(r)@) + default_bindings_8(),
{
    let ghost start = bindings_view(r@);
    let cmds = commands_of("cmd feedadd", None, None);
    push_binding(r, "c f", cmds);
    let cmds = commands_of("confirm feedadd https://github.com/christo-auer/eilmeldung/releases.atom eilmeldung releases", None, None);
    push_binding(r, "c e", cmds);
    let cmds = commands_of("cmd categoryadd", None, None);
    push_binding(r, "c a", cmds);
    let cmds = commands_of("cmd feedchangeurl", None, None);
    push_binding(r, "c u", cmds);
    let cmds = commands_of("yank", None, None);
    push_binding(r, "c y", cmds);
    let cmds = commands_of("paste after", None, None);
    push_binding(r, "c p", cmds);
    let cmds = commands_of("paste before", None, None);
    push_binding(r, "c P", cmds);
    let cmds = commands_of("cmd tagchangecolor", None, None);
    push_binding(r, "c c", cmds);
    let cmds = commands_of("confirm sortfeeds", None, None);
    push_binding(r, "c s", cmds);
    let cmds = commands_of("cmd share", None, None);
    push_binding(r, "S", cmds);
    let cmds = commands_of("openenclosure", None, None);
    push_binding(r, "e", cmds);
    let cmds = commands_of("cmd openenclosure", None, None);
    push_binding(r, "E", cmds);
    let cmds = commands_of("helpinput", None, None);
    push_binding(r, "?", cmds);
    assert(bindings_view(r@) =~= start + default_bindings_8());
}

/// The default bindings, in the order they are listed.
pub open spec fn default_bindings() -> Seq<(Seq<char>, Seq<Seq<char>>)> {
    default_bindings_1() + default_bindings_2() + default_bindings_3() + default_bindings_4() + default_bindings_5() + default_bindings_6() + default_bindings_7() + default_bindings_8()
}

/// The default key bindings: each key sequence, as the configuration writes it, with the command
/// lines it runs, in order.
pub fn generate_default_input_commands() -> (r: Vec<(String, Vec<String>)>)
    ensures
        bindings_view(r@) == default_bindings(),
{
    let mut r: Vec<(String, Vec<String>)> = Vec::new();
    assert(bindings_view(r@) =~= Seq::<(Seq<char>, Seq<Seq<char>>)>::empty());
    push_defaults_1(&mut r);
    push_defaults_2(&mut r);
    push_defaults_3(&mut r);
    push_defaults_4(&mut r);
    push_defaults_5(&mut r);
    push_defaults_6(&mut r);
    push_defaults_7(&mut r);
    push_defaults_8(&mut r);
    assert(bindings_view(r@) =~= default_bindings());
    r
}

/// The command lines of a binding as characters.
pub open spec fn commands_view(v: Vec<String>) -> Seq<Seq<char>> {
    v@.map_values(|c: String| c@)
}

/// The entries of a binding map, in order: each key sequence with its command lines.
pub uninterp spec fn binding_map_entries(m: IndexMap<String, Vec<String>>) -> Seq<(Seq<char>, Seq<Seq<char>>)>;

/// The index of the first entry of `entries` for the key sequence `keys`, or -1.
pub open spec fn find_binding(entries: Seq<(Seq<char>, Seq<Seq<char>>)>, keys: Seq<char>) -> int
    decreases entries.len(),
{
    if entries.len() == 0 {
        -1
    } else if entries[0].0 == keys {
        0
    } else {
        let rest = find_binding(entries.drop_first(), keys);
        if rest < 0 { -1 } else { rest + 1 }
    }
}

/// `entries` with `keys` bound to `commands`: an entry for the same keys keeps its place and
/// takes the new commands, otherwise the binding is added last.
pub open spec fn insert_binding(entries: Seq<(Seq<char>, Seq<Seq<char>>)>, keys: Seq<char>, commands: Seq<Seq<char>>) -> Seq<(Seq<char>, Seq<Seq<char>>)> {
    let i = find_binding(entries, keys);
    if i >= 0 {
        entries.update(i, (entries[i].0, commands))
    } else {
        entries.push((keys, commands))
    }
}

/// A new, empty binding map (`IndexMap::new`).
#[verifier::external_body]
fn bindings_new() -> (m: IndexMap<String, Vec<String>>)
    ensures
        binding_map_entries(m) == Seq::<(Seq<char>, Seq<Seq<char>>)>::empty(),
{
    IndexMap::new()
}

/// `IndexMap::insert`: an entry with equal keys keeps its place and takes the new commands;
/// otherwise the binding is added last.
#[verifier::external_body]
fn bindings_insert(m: &mut IndexMap<String, Vec<String>>, keys: String, commands: Vec<String>)
    ensures
        binding_map_entries(*final(m)) == insert_binding(binding_map_entries(*old(m)), keys@, commands_view(commands)),
{
    m.insert(keys, commands);
}

/// `IndexMap::contains_key`: whether an entry has equal keys.
#[verifier::external_body]
fn bindings_contains(m: &IndexMap<String, Vec<String>>, keys: &str) -> (b: bool)
    ensures
        b == (find_binding(binding_map_entries(*m), keys@) >= 0),
{
    m.contains_key(keys)
}

/// The entries of the map, in order (`IndexMap::into_iter`).
#[verifier::external_body]
fn bindings_entries(m: IndexMap<String, Vec<String>>) -> (v: Vec<(String, Vec<String>)>)
    ensures
        bindings_view(v@) == binding_map_entries(m),
{
    m.into_iter().collect()
}

/// The bindings of `user` put into a map one after another: a later binding of the same keys
/// replaces an earlier one in its place.
pub open spec fn user_entries(user: Seq<(Seq<char>, Seq<Seq<char>>)>) -> Seq<(Seq<char>, Seq<Seq<char>>)>
    decreases user.len(),
{
    if user.len() == 0 {
        Seq::empty()
    } else {
        insert_binding(user_entries(user.drop_last()), user.last().0, user.last().1)
    }
}

/// `entries` with each binding of `defaults` whose keys are not bound yet added after them, in
/// order.
pub open spec fn add_defaults(entries: Seq<(Seq<char>, Seq<Seq<char>>)>, defaults: Seq<(Seq<char>, Seq<Seq<char>>)>) -> Seq<(Seq<char>, Seq<Seq<char>>)>
    decreases defaults.len(),
{
    if defaults.len() == 0 {
        entries
    } else {
        let e = add_defaults(entries, defaults.drop_last());
        if find_binding(e, defaults.last().0) >= 0 {
            e
        } else {
            e.push(defaults.last())
        }
    }
}

/// `entries` without the keys bound to no command: those are unbound.
pub open spec fn drop_unbound(entries: Seq<(Seq<char>, Seq<Seq<char>>)>) -> Seq<(Seq<char>, Seq<Seq<char>>)>
    decreases entries.len(),
{
    if entries.len() == 0 {
        Seq::empty()
    } else {
        let rest = drop_unbound(entries.drop_last());
        if entries.last().1.len() == 0 {
            rest
        } else {
            rest.push(entries.last())
        }
    }
}

/// The bindings in effect: the user's bindings stand, in their order; each default binding whose
/// keys the user did not bind follows, in the default order; and keys bound to no command are
/// unbound.
pub open spec fn spec_merge_bindings(user: Seq<(Seq<char>, Seq<Seq<char>>)>, defaults: Seq<(Seq<char>, Seq<Seq<char>>)>) -> Seq<(Seq<char>, Seq<Seq<char>>)> {
    drop_unbound(add_defaults(user_entries(user), defaults))
}

/// The bindings in effect for the user's bindings `user` (in the order the configuration gives
/// them): the user's bindings stand, every default key the user left alone keeps its default
/// binding after them, and a key bound to no command is unbound.
pub fn merge_bindings(user: Vec<(String, Vec<String>)>) -> (r: Vec<(String, Vec<String>)>)
    ensures
        bindings_view(r@) == spec_merge_bindings(bindings_view(user@), default_bindings()),
{
    let ghost uv = bindings_view(user@);
    let mut m = bindings_new();
    let mut rest = user;
    let mut n: usize = 0;
    assert(uv.len() == rest@.len());
    assert(rest@.len() == rest.len());
    assert(uv.take(0) =~= Seq::<(Seq<char>, Seq<Seq<char>>)>::empty());
    while rest.len() > 0
        invariant
            uv == bindings_view(user@),
            uv.len() <= usize::MAX,
            n + rest@.len() == uv.len(),
            bindings_view(rest@) == uv.subrange(n as int, uv.len() as int),
            binding_map_entries(m) == user_entries(uv.take(n as int)),
        decreases rest.len(),
    {
        let ghost before = rest@;
        let (keys, commands) = rest.remove(0);
        proof {
            assert(bindings_view(before)[0] == uv[n as int]);
            assert(uv.take(n + 1).drop_last() =~= uv.take(n as int));
            assert(uv.take(n + 1).last() == uv[n as int]);
            assert forall|t: int| 0 <= t < rest@.len() implies bindings_view(rest@)[t] == uv.subrange(n + 1, uv.len() as int)[t] by {
                assert(rest@[t] == before[t + 1]);
                assert(bindings_view(before)[t + 1] == uv[n + 1 + t]);
            }
            assert(bindings_view(rest@) =~= uv.subrange(n + 1, uv.len() as int));
        }
        bindings_insert(&mut m, keys, commands);
        n = n + 1;
    }
    assert(uv.take(uv.len() as int) =~= uv);
    let ghost ue = user_entries(uv);
    let ghost dv = default_bindings();
    let mut defaults = generate_default_input_commands();
    let mut k: usize = 0;
    assert(dv.take(0) =~= Seq::<(Seq<char>, Seq<Seq<char>>)>::empty());
    while defaults.len() > 0
        invariant
            dv == default_bindings(),
            dv.len() <= usize::MAX,
            k + defaults@.len() == dv.len(),
            bindings_view(defaults@) == dv.subrange(k as int, dv.len() as int),
            binding_map_entries(m) == add_defaults(ue, dv.take(k as int)),
        decreases defaults.len(),
    {
        let ghost before = defaults@;
        let (keys, commands) = defaults.remove(0);
        proof {
            assert(bindings_view(before)[0] == dv[k as int]);
            assert(dv.take(k + 1).drop_last() =~= dv.take(k as int));
            assert(dv.take(k + 1).last() == dv[k as int]);
            assert forall|t: int| 0 <= t < defaults@.len() implies bindings_view(defaults@)[t] == dv.subrange(k + 1, dv.len() as int)[t] by {
                assert(defaults@[t] == before[t + 1]);
                assert(bindings_view(before)[t + 1] == dv[k + 1 + t]);
            }
            assert(bindings_view(defaults@) =~= dv.subrange(k + 1, dv.len() as int));
        }
        if !bindings_contains(&m, keys.as_str()) {
            let ghost e = binding_map_entries(m);
            bindings_insert(&mut m, keys, commands);
            proof {
                assert(insert_binding(e, dv[k as int].0, dv[k as int].1) == e.push(dv[k as int]));
            }
        }
        k = k + 1;
    }
    assert(dv.take(dv.len() as int) =~= dv);
    let ghost all = add_defaults(ue, dv);
    let mut entries = bindings_entries(m);
    let mut r: Vec<(String, Vec<String>)> = Vec::new();
    let mut j: usize = 0;
    assert(bindings_view(entries@).len() == entries@.len());
    assert(entries@.len() == entries.len());
    assert(all.take(0) =~= Seq::<(Seq<char>, Seq<Seq<char>>)>::empty());
    assert(bindings_view(r@) =~= Seq::<(Seq<char>, Seq<Seq<char>>)>::empty());
    while entries.len() > 0
        invariant
            all.len() <= usize::MAX,
            j + entries@.len() == all.len(),
            bindings_view(entries@) == all.subrange(j as int, all.len() as int),
            bindings_view(r@) == drop_unbound(all.take(j as int)),
        decreases entries.len(),
    {
        let ghost before = entries@;
        let (keys, commands) = entries.remove(0);
        proof {
            assert(bindings_view(before)[0] == all[j as int]);
            assert(all.take(j + 1).drop_last() =~= all.take(j as int));
            assert(all.take(j + 1).last() == all[j as int]);
            assert forall|t: int| 0 <= t < entries@.len() implies bindings_view(entries@)[t] == all.subrange(j + 1, all.len() as int)[t] by {
                assert(entries@[t] == before[t + 1]);
                assert(bindings_view(before)[t + 1] == all[j + 1 + t]);
            }
            assert(bindings_view(entries@) =~= all.subrange(j + 1, all.len() as int));
        }
        if commands.len() > 0 {
            let ghost rb = r@;
            r.push((keys, commands));
            assert(bindings_view(r@) =~= bindings_view(rb).push(all[j as int]));
        }
        j = j + 1;
    }
    assert(all.take(all.len() as int) =~= all);
    r
}

/// The command lines bound to the key sequence `keys` among `bindings`, if it is bound (the
/// first binding for it).
pub fn match_single_key(bindings: &Vec<(String, Vec<String>)>, keys: &str) -> (r: Option<Vec<String>>)
    ensures
        ({
            let i = find_binding(bindings_view(bindings@), keys@);
            if i >= 0 {
                r matches Some(c) && commands_view(c) == bindings_view(bindings@)[i].1
            } else {
                r is None
            }
        }),
{
    let ghost bv = bindings_view(bindings@);
    let mut i: usize = 0;
    assert(bv.subrange(0, bv.len() as int) =~= bv);
    while i < bindings.len()
        invariant
            bv == bindings_view(bindings@),
            i <= bindings@.len(),
            ({
                let j = find_binding(bv.subrange(i as int, bv.len() as int), keys@);
                let f = find_binding(bv, keys@);
                (j < 0 ==> f < 0) && (j >= 0 ==> f == j + i)
            }),
        decreases bindings.len() - i,
    {
        let ghost rest = bv.subrange(i as int, bv.len() as int);
        assert(rest.drop_first() =~= bv.subrange(i + 1, bv.len() as int));
        assert(rest[0] == binding_view(bindings@[i as int]));
        let kc = crate::unicode::chars_of(bindings[i].0.as_str());
        if crate::article_table::same_chars(kc.as_slice(), keys) {
            let c = clone_commands(&bindings[i].1);
            return Some(c);
        }
        i = i + 1;
    }
    None
}

/// A copy of the command lines `v`.
fn clone_commands(v: &Vec<String>) -> (c: Vec<String>)
    ensures
        commands_view(c) == commands_view(*v),
{
    let mut c: Vec<String> = Vec::new();
    let mut i: usize = 0;
    while i < v.len()
        invariant
            i <= v@.len(),
            c@.len() == i,
            forall|k: int| 0 <= k < i ==> (#[trigger] c@[k])@ == v@[k]@,
        decreases v.len() - i,
    {
        let s = v[i].clone();
        c.push(s);
        i = i + 1;
    }
    assert(commands_view(c) =~= commands_view(*v));
    c
}

/// The command bound to the key sequence `keys` when it is bound to exactly one command.
pub fn match_single_key_to_single_command(bindings: &Vec<(String, Vec<String>)>, keys: &str) -> (r: Option<String>)
    ensures
        ({
            let i = find_binding(bindings_view(bindings@), keys@);
            if i >= 0 && bindings_view(bindings@)[i].1.len() == 1 {
                r matches Some(c) && c@ == bindings_view(bindings@)[i].1[0]
            } else {
                r is None
            }
        }),
{
    match match_single_key(bindings, keys) {
        Some(c) => {
            if c.len() == 1 {
                assert(commands_view(c)[0] == c@[0]@);
                Some(c[0].clone())
            } else {
                None
            }
        },
        None => None,
    }
}

} // verus!
