//! The notification daemon's settings, as read from a mako configuration file.

use crate::text::{
    is_ws, joined_lines, lemma_decimal_digits, lemma_lines_of_joined, lemma_parse_decimal,
    lemma_trim_plain, plain_line, views, is_digit,
    decimal, decimal_string,
    chars_eq_str, chars_of, lines, lines_of, parse_u32, parse_u32_spec, rsplit_once,
    rsplit_once_chars, split_once, split_once_chars, string_of, trim, trim_chars,
};
use vstd::prelude::*;

verus! {

#[derive(Debug, Clone)]
pub struct NotificationConfig {
    pub font: String,
    pub font_size: u32,
    pub background_color: String,
    pub text_color: String,
    pub border_color: String,
    pub timeout: u32,
    pub max_visible: u32,
    pub position: String,
}

/// The view of a configuration: font, size, background, text and border
/// colours, timeout, number shown, anchor.
pub open spec fn config_view(c: NotificationConfig) -> (
    Seq<char>,
    u32,
    Seq<char>,
    Seq<char>,
    Seq<char>,
    u32,
    u32,
    Seq<char>,
) {
    (
        c.font@,
        c.font_size,
        c.background_color@,
        c.text_color@,
        c.border_color@,
        c.timeout,
        c.max_visible,
        c.position@,
    )
}

pub open spec fn default_config_view() -> (
    Seq<char>,
    u32,
    Seq<char>,
    Seq<char>,
    Seq<char>,
    u32,
    u32,
    Seq<char>,
) {
    ("monospace"@, 12, "#1a1a2e"@, "#00ff99"@, "#00ff9966"@, 5000, 5, "top-right"@)
}

impl Default for NotificationConfig {
    fn default() -> (c: Self)
        ensures
            config_view(c) == default_config_view(),
    {
        NotificationConfig {
            font: String::from_str("monospace"),
            font_size: 12,
            background_color: String::from_str("#1a1a2e"),
            text_color: String::from_str("#00ff99"),
            border_color: String::from_str("#00ff9966"),
            timeout: 5000,
            max_visible: 5,
            position: String::from_str("top-right"),
        }
    }
}

type ConfigView = (Seq<char>, u32, Seq<char>, Seq<char>, Seq<char>, u32, u32, Seq<char>);

/// The effect of a `font=` line: `family size`, where the last word is a
/// number, sets both; anything else sets the family to the whole value.
pub open spec fn apply_font(c: ConfigView, v: Seq<char>) -> ConfigView {
    let t = trim(v);
    match rsplit_once(t, ' ') {
        Some((family, size)) => match parse_u32_spec(size) {
            Some(n) => (family, n, c.2, c.3, c.4, c.5, c.6, c.7),
            None => (t, c.1, c.2, c.3, c.4, c.5, c.6, c.7),
        },
        None => (t, c.1, c.2, c.3, c.4, c.5, c.6, c.7),
    }
}

/// The effect of one `key=value` line.
pub open spec fn apply_setting(c: ConfigView, key: Seq<char>, v: Seq<char>) -> ConfigView {
    if key == "font"@ {
        apply_font(c, v)
    } else if key == "background-color"@ {
        (c.0, c.1, trim(v), c.3, c.4, c.5, c.6, c.7)
    } else if key == "color"@ {
        (c.0, c.1, c.2, trim(v), c.4, c.5, c.6, c.7)
    } else if key == "border-color"@ {
        (c.0, c.1, c.2, c.3, trim(v), c.5, c.6, c.7)
    } else if key == "default-timeout"@ {
        (c.0, c.1, c.2, c.3, c.4, match parse_u32_spec(trim(v)) {
            Some(n) => n,
            None => 5000,
        }, c.6, c.7)
    } else if key == "max-visible"@ {
        (c.0, c.1, c.2, c.3, c.4, c.5, match parse_u32_spec(trim(v)) {
            Some(n) => n,
            None => 5,
        }, c.7)
    } else if key == "anchor"@ {
        (c.0, c.1, c.2, c.3, c.4, c.5, c.6, trim(v))
    } else {
        c
    }
}

pub open spec fn mako_step(c: ConfigView, raw: Seq<char>) -> ConfigView {
    let line = trim(raw);
    if (line.len() > 0 && line[0] == '#') || line.len() == 0 {
        c
    } else {
        match split_once(line, '=') {
            Some((k, v)) => apply_setting(c, trim(k), v),
            None => c,
        }
    }
}

/// The configuration after reading some lines, starting from the defaults.
pub open spec fn mako_config_of(ls: Seq<Seq<char>>) -> ConfigView
    decreases ls.len(),
{
    if ls.len() == 0 {
        default_config_view()
    } else {
        mako_step(mako_config_of(ls.drop_last()), ls.last())
    }
}

fn apply_font_exec(c: &mut NotificationConfig, v: &[char])
    ensures
        config_view(*final(c)) == apply_font(config_view(*old(c)), v@),
{
    let t = trim_chars(v);
    match rsplit_once_chars(t.as_slice(), ' ') {
        Some((family, size)) => match parse_u32(size.as_slice()) {
            Some(n) => {
                c.font_size = n;
                c.font = string_of(family.as_slice());
            },
            None => {
                c.font = string_of(t.as_slice());
            },
        },
        None => {
            c.font = string_of(t.as_slice());
        },
    }
}

/// Read a mako configuration; settings that it does not give keep their
/// defaults.
pub fn parse_mako_config(content: &str) -> (r: NotificationConfig)
    ensures
        config_view(r) == mako_config_of(lines_of(content@)),
{
    let mut cfg = NotificationConfig::default();
    let text = chars_of(content);
    let ls = lines(text.as_slice());
    let ghost all = lines_of(content@);
    let mut i: usize = 0;
    while i < ls.len()
        invariant
            text@ == content@,
            all == lines_of(content@),
            ls@.len() == all.len(),
            forall|k: int| 0 <= k < ls@.len() ==> #[trigger] ls@[k]@ == all[k],
            i <= ls@.len(),
            config_view(cfg) == mako_config_of(all.take(i as int)),
        decreases ls@.len() - i,
    {
        proof {
            assert(all.take(i + 1).drop_last() =~= all.take(i as int));
            assert(all.take(i + 1).last() == all[i as int]);
        }
        let line = trim_chars(ls[i].as_slice());
        if (line.len() > 0 && line[0] == '#') || line.len() == 0 {
        } else {
            match split_once_chars(line.as_slice(), '=') {
                Some((k, v)) => {
                    let key = trim_chars(k.as_slice());
                    let key = key.as_slice();
                    if chars_eq_str(key, "font") {
                        apply_font_exec(&mut cfg, v.as_slice());
                    } else if chars_eq_str(key, "background-color") {
                        cfg.background_color = string_of(trim_chars(v.as_slice()).as_slice());
                    } else if chars_eq_str(key, "color") {
                        cfg.text_color = string_of(trim_chars(v.as_slice()).as_slice());
                    } else if chars_eq_str(key, "border-color") {
                        cfg.border_color = string_of(trim_chars(v.as_slice()).as_slice());
                    } else if chars_eq_str(key, "default-timeout") {
                        cfg.timeout = match parse_u32(trim_chars(v.as_slice()).as_slice()) {
                            Some(n) => n,
                            None => 5000,
                        };
                    } else if chars_eq_str(key, "max-visible") {
                        cfg.max_visible = match parse_u32(trim_chars(v.as_slice()).as_slice()) {
                            Some(n) => n,
                            None => 5,
                        };
                    } else if chars_eq_str(key, "anchor") {
                        cfg.position = string_of(trim_chars(v.as_slice()).as_slice());
                    }
                },
                None => {},
            }
        }
        i = i + 1;
    }
    proof {
        assert(all.take(ls@.len() as int) =~= all);
    }
    cfg
}

/// A `key=value` line.
pub open spec fn setting(key: Seq<char>, value: Seq<char>) -> Seq<char> {
    key + seq!['='] + value
}

/// The lines of the mako configuration file that the settings panel writes.
pub open spec fn mako_config_lines(c: NotificationConfig) -> Seq<Seq<char>> {
    seq![
        "# eDEX-DE notification config (managed by settings panel)"@,
        setting("font"@, c.font@ + seq![' '] + decimal(c.font_size as nat)),
        setting("background-color"@, c.background_color@),
        setting("color"@, c.text_color@),
        setting("border-color"@, c.border_color@),
        setting("border-size"@, "2"@),
        setting("border-radius"@, "4"@),
        setting("default-timeout"@, decimal(c.timeout as nat)),
        setting("max-visible"@, decimal(c.max_visible as nat)),
        setting("anchor"@, c.position@),
        setting("layer"@, "overlay"@),
        setting("margin"@, "8"@),
        setting("padding"@, "8,16"@),
    ]
}

/// The text of that file: each line followed by a line break.
pub open spec fn mako_config_text(c: NotificationConfig) -> Seq<char> {
    joined_lines(mako_config_lines(c))
}

fn setting_string(key: &str, value: &str) -> (r: String)
    ensures
        r@ == setting(key@, value@),
{
    let mut s = String::from_str(key);
    s.append("=");
    s.append(value);
    proof {
        reveal_strlit("=");
        assert(s@ =~= setting(key@, value@));
    }
    s
}

fn join_lines(lines: &Vec<String>) -> (r: String)
    ensures
        r@ == joined_lines(views(lines@)),
{
    let mut s = String::new();
    let mut i: usize = 0;
    proof {
        reveal_strlit("\n");
    }
    while i < lines.len()
        invariant
            i <= lines@.len(),
            "\n"@ == seq!['\n'],
            s@ == joined_lines(views(lines@.take(i as int))),
        decreases lines@.len() - i,
    {
        proof {
            assert(views(lines@.take(i + 1)).drop_last() =~= views(lines@.take(i as int)));
            assert(views(lines@.take(i + 1)).last() == lines@[i as int]@);
        }
        s.append(lines[i].as_str());
        s.append("\n");
        i = i + 1;
    }
    proof {
        assert(lines@.take(lines@.len() as int) =~= lines@);
    }
    s
}

/// The text of the mako configuration file for a configuration.
pub fn write_mako_config(c: &NotificationConfig) -> (r: String)
    ensures
        r@ == mako_config_text(*c),
{
    let mut font = String::from_str(c.font.as_str());
    font.append(" ");
    font.append(decimal_string(c.font_size as u64).as_str());
    let mut lines: Vec<String> = Vec::new();
    lines.push(String::from_str("# eDEX-DE notification config (managed by settings panel)"));
    lines.push(setting_string("font", font.as_str()));
    lines.push(setting_string("background-color", c.background_color.as_str()));
    lines.push(setting_string("color", c.text_color.as_str()));
    lines.push(setting_string("border-color", c.border_color.as_str()));
    lines.push(setting_string("border-size", "2"));
    lines.push(setting_string("border-radius", "4"));
    lines.push(setting_string("default-timeout", decimal_string(c.timeout as u64).as_str()));
    lines.push(setting_string("max-visible", decimal_string(c.max_visible as u64).as_str()));
    lines.push(setting_string("anchor", c.position.as_str()));
    lines.push(setting_string("layer", "overlay"));
    lines.push(setting_string("margin", "8"));
    lines.push(setting_string("padding", "8,16"));
    proof {
        reveal_strlit(" ");
        assert(font@ =~= c.font@ + seq![' '] + decimal(c.font_size as nat));
        let v = views(lines@);
        let m = mako_config_lines(*c);
        assert(v.len() == m.len());
        assert(forall|k: int| 0 <= k < 13 ==> #[trigger] v[k] == lines@[k]@);
        assert(v[1] == m[1]);
        assert(v =~= m);
    }
    join_lines(&lines)
}

/// A value that the file gives back as written: no line break in it, and no
/// whitespace at its ends.
pub open spec fn plain_value(v: Seq<char>) -> bool {
    !v.contains('\n') && (v.len() == 0 || (!is_ws(v[0]) && !is_ws(v.last())))
}

/// A configuration that the file gives back: a font name that is not empty,
/// and plain values.
pub open spec fn writable(c: NotificationConfig) -> bool {
    &&& c.font@.len() > 0
    &&& plain_value(c.font@)
    &&& plain_value(c.background_color@)
    &&& plain_value(c.text_color@)
    &&& plain_value(c.border_color@)
    &&& plain_value(c.position@)
}

proof fn lemma_no_char_in_concat(a: Seq<char>, b: Seq<char>, x: char)
    requires
        !a.contains(x),
        !b.contains(x),
    ensures
        !(a + b).contains(x),
{
    if (a + b).contains(x) {
        let k = choose|k: int| 0 <= k < (a + b).len() && (a + b)[k] == x;
        if k < a.len() {
            assert(a[k] == x);
        } else {
            assert(b[k - a.len()] == x);
        }
    }
}

/// A `key=value` line with a plain key and value is read as that setting.
proof fn lemma_setting_step(c: ConfigView, key: Seq<char>, value: Seq<char>)
    requires
        key.len() > 0,
        key[0] != '#',
        !key.contains('='),
        !key.contains('\n'),
        !is_ws(key[0]),
        !is_ws(key.last()),
        plain_value(value),
    ensures
        mako_step(c, setting(key, value)) == apply_setting(c, key, value),
        plain_line(setting(key, value)),
{
    let line = setting(key, value);
    assert(line[0] == key[0]);
    if value.len() > 0 {
        assert(line.last() == value.last());
    } else {
        assert(line.last() == '=');
    }
    lemma_trim_plain(line);
    lemma_trim_plain(key);
    line.index_of_first_ensures('=');
    assert(line[key.len() as int] == '=');
    assert(line.contains('='));
    let k = line.index_of_first('=')->0;
    if k < key.len() {
        assert(line[k] == key[k]);
    }
    assert(k == key.len());
    assert(line.take(k) =~= key);
    assert(line.skip(k + 1) =~= value);
    assert(!seq!['='].contains('\n'));
    lemma_no_char_in_concat(key, seq!['='], '\n');
    lemma_no_char_in_concat(key + seq!['='], value, '\n');
    assert(!(line.len() > 0 && line.last() == '\r'));
}

proof fn lemma_decimal_plain(n: nat)
    ensures
        plain_value(decimal(n)),
        decimal(n).len() > 0,
        !decimal(n).contains(' '),
{
    lemma_decimal_digits(n);
    let d = decimal(n);
    assert(!d.contains('\n') && !d.contains(' ')) by {
        if d.contains('\n') {
            let k = choose|k: int| 0 <= k < d.len() && d[k] == '\n';
            assert(is_digit(d[k]));
        }
        if d.contains(' ') {
            let k = choose|k: int| 0 <= k < d.len() && d[k] == ' ';
            assert(is_digit(d[k]));
        }
    }
    assert(is_digit(d[0]));
    assert(is_digit(d[d.len() - 1]));
}

/// Writing a configuration and reading the file back gives the configuration,
/// where its font name is not empty and no value has a line break or
/// whitespace at its ends.
pub proof fn law_config_read_back(c: NotificationConfig)
    requires
        writable(c),
    ensures
        mako_config_of(lines_of(mako_config_text(c))) == config_view(c),
{
    let ls = mako_config_lines(c);
    reveal_strlit("# eDEX-DE notification config (managed by settings panel)");
    reveal_strlit("font");
    reveal_strlit("background-color");
    reveal_strlit("color");
    reveal_strlit("border-color");
    reveal_strlit("border-size");
    reveal_strlit("border-radius");
    reveal_strlit("default-timeout");
    reveal_strlit("max-visible");
    reveal_strlit("anchor");
    reveal_strlit("layer");
    reveal_strlit("margin");
    reveal_strlit("padding");
    reveal_strlit("2");
    reveal_strlit("4");
    reveal_strlit("8");
    reveal_strlit("overlay");
    reveal_strlit("8,16");
    let fv = c.font@ + seq![' '] + decimal(c.font_size as nat);
    lemma_decimal_plain(c.font_size as nat);
    lemma_decimal_plain(c.timeout as nat);
    lemma_decimal_plain(c.max_visible as nat);
    assert(plain_value(fv)) by {
        lemma_no_char_in_concat(c.font@, seq![' '], '\n');
        lemma_no_char_in_concat(c.font@ + seq![' '], decimal(c.font_size as nat), '\n');
        assert(fv[0] == c.font@[0]);
        assert(fv.last() == decimal(c.font_size as nat).last());
    }
    assert(plain_value("2"@) && plain_value("4"@) && plain_value("8"@) && plain_value("overlay"@) && plain_value("8,16"@)) by {
        assert(!"2"@.contains('\n')) by {
            if "2"@.contains('\n') {
                let k = choose|k: int| 0 <= k < "2"@.len() && "2"@[k] == '\n';
            }
        }
        assert(!"4"@.contains('\n')) by {
            if "4"@.contains('\n') {
                let k = choose|k: int| 0 <= k < "4"@.len() && "4"@[k] == '\n';
            }
        }
        assert(!"8"@.contains('\n')) by {
            if "8"@.contains('\n') {
                let k = choose|k: int| 0 <= k < "8"@.len() && "8"@[k] == '\n';
            }
        }
        assert(!"overlay"@.contains('\n')) by {
            if "overlay"@.contains('\n') {
                let k = choose|k: int| 0 <= k < "overlay"@.len() && "overlay"@[k] == '\n';
            }
        }
        assert(!"8,16"@.contains('\n')) by {
            if "8,16"@.contains('\n') {
                let k = choose|k: int| 0 <= k < "8,16"@.len() && "8,16"@[k] == '\n';
            }
        }
    }
    let c0 = default_config_view();
    let comment = "# eDEX-DE notification config (managed by settings panel)"@;
    assert(plain_line(comment)) by {
        if comment.contains('\n') {
            let k = choose|k: int| 0 <= k < comment.len() && comment[k] == '\n';
        }
    }
    lemma_trim_plain(comment);
    assert(ls[0] == comment);
    let s1 = mako_step(c0, ls[0]);
    assert(s1 == c0);
    lemma_setting_step(s1, "font"@, fv);
    lemma_font_value(s1, c.font@, c.font_size);
    let s2 = mako_step(s1, ls[1]);
    assert(s2 == (c.font@, c.font_size, c0.2, c0.3, c0.4, c0.5, c0.6, c0.7));
    lemma_setting_step(s2, "background-color"@, c.background_color@);
    lemma_trim_plain(c.background_color@);
    let s3 = mako_step(s2, ls[2]);
    assert(s3 == (c.font@, c.font_size, c.background_color@, c0.3, c0.4, c0.5, c0.6, c0.7));
    lemma_setting_step(s3, "color"@, c.text_color@);
    lemma_trim_plain(c.text_color@);
    let s4 = mako_step(s3, ls[3]);
    assert(s4 == (c.font@, c.font_size, c.background_color@, c.text_color@, c0.4, c0.5, c0.6, c0.7));
    lemma_setting_step(s4, "border-color"@, c.border_color@);
    lemma_trim_plain(c.border_color@);
    let s5 = mako_step(s4, ls[4]);
    assert(s5 == (c.font@, c.font_size, c.background_color@, c.text_color@, c.border_color@, c0.5, c0.6, c0.7));
    lemma_setting_step(s5, "border-size"@, "2"@);
    let s6 = mako_step(s5, ls[5]);
    assert(s6 == s5);
    lemma_setting_step(s6, "border-radius"@, "4"@);
    let s7 = mako_step(s6, ls[6]);
    assert(s7 == s5);
    lemma_setting_step(s7, "default-timeout"@, decimal(c.timeout as nat));
    lemma_trim_plain(decimal(c.timeout as nat));
    lemma_parse_decimal(c.timeout);
    let s8 = mako_step(s7, ls[7]);
    assert(s8 == (c.font@, c.font_size, c.background_color@, c.text_color@, c.border_color@, c.timeout, c0.6, c0.7));
    lemma_setting_step(s8, "max-visible"@, decimal(c.max_visible as nat));
    lemma_trim_plain(decimal(c.max_visible as nat));
    lemma_parse_decimal(c.max_visible);
    let s9 = mako_step(s8, ls[8]);
    assert(s9 == (c.font@, c.font_size, c.background_color@, c.text_color@, c.border_color@, c.timeout, c.max_visible, c0.7));
    lemma_setting_step(s9, "anchor"@, c.position@);
    lemma_trim_plain(c.position@);
    let s10 = mako_step(s9, ls[9]);
    assert(s10 == config_view(c));
    lemma_setting_step(s10, "layer"@, "overlay"@);
    let s11 = mako_step(s10, ls[10]);
    assert(s11 == s10);
    lemma_setting_step(s11, "margin"@, "8"@);
    let s12 = mako_step(s11, ls[11]);
    assert(s12 == s10);
    lemma_setting_step(s12, "padding"@, "8,16"@);
    let s13 = mako_step(s12, ls[12]);
    assert(s13 == s10);
    assert forall|k: int| 0 <= k < ls.len() implies plain_line(#[trigger] ls[k]) by {
    }
    lemma_lines_of_joined(ls);
    lemma_config_steps(ls);
}

/// Reading the thirteen lines is taking the thirteen steps.
proof fn lemma_config_steps(ls: Seq<Seq<char>>)
    requires
        ls.len() == 13,
    ensures
        mako_config_of(ls) == mako_step(mako_step(mako_step(mako_step(mako_step(mako_step(mako_step(
            mako_step(mako_step(mako_step(mako_step(mako_step(mako_step(default_config_view(), ls[0]), ls[1]),
            ls[2]), ls[3]), ls[4]), ls[5]), ls[6]), ls[7]), ls[8]), ls[9]), ls[10]), ls[11]), ls[12]),
{
    assert(ls.take(0) =~= Seq::<Seq<char>>::empty());
    assert(mako_config_of(ls.take(0)) == default_config_view());
    lemma_config_step(ls, 0);
    lemma_config_step(ls, 1);
    lemma_config_step(ls, 2);
    lemma_config_step(ls, 3);
    lemma_config_step(ls, 4);
    lemma_config_step(ls, 5);
    lemma_config_step(ls, 6);
    lemma_config_step(ls, 7);
    lemma_config_step(ls, 8);
    lemma_config_step(ls, 9);
    lemma_config_step(ls, 10);
    lemma_config_step(ls, 11);
    lemma_config_step(ls, 12);
    assert(ls.take(13) =~= ls);
}

proof fn lemma_config_step(ls: Seq<Seq<char>>, k: int)
    requires
        0 <= k < ls.len(),
    ensures
        mako_config_of(ls.take(k + 1)) == mako_step(mako_config_of(ls.take(k)), ls[k]),
{
    assert(ls.take(k + 1).drop_last() =~= ls.take(k));
    assert(ls.take(k + 1).last() == ls[k]);
}

/// A `font=` value of a font name and a size sets both.
proof fn lemma_font_value(c: ConfigView, font: Seq<char>, size: u32)
    requires
        font.len() > 0,
        plain_value(font),
    ensures
        apply_font(c, font + seq![' '] + decimal(size as nat)) == (font, size, c.2, c.3, c.4, c.5, c.6, c.7),
{
    let d = decimal(size as nat);
    let v = font + seq![' '] + d;
    lemma_decimal_plain(size as nat);
    assert(v[0] == font[0]);
    assert(v.last() == d.last());
    lemma_trim_plain(v);
    v.index_of_last_ensures(' ');
    assert(v[font.len() as int] == ' ');
    assert(v.contains(' '));
    let k = v.index_of_last(' ')->0;
    if k > font.len() {
        assert(d[k - font.len() - 1] == ' ');
        assert(d.contains(' '));
    }
    assert(k == font.len());
    assert(v.take(k) =~= font);
    assert(v.skip(k + 1) =~= d);
    lemma_parse_decimal(size);
}
} // verus!
