//! Command enums as tables: what the `CommandSpec` derive works out from an
//! enum's variants and `#[command(...)]` attributes (names, aliases, the
//! `/help` text and the Telegram menu), and how a message is parsed against
//! it.

use crate::case::{
    kebab_cased, lower_camel_cased, lowercased, pascal_cased, shouty_kebab_cased, shouty_snake_cased,
    snake_cased, to_kebab_case, to_lower_camel_case, to_lowercase, to_pascal_case, to_shouty_kebab_case,
    to_shouty_snake_case, to_snake_case, to_uppercase, uppercased,
};
use crate::text::{find_from, find_str, first_index_of, is_first_index, occurs_at, eq_ascii_ci, eq_ignore_ascii_case, push_char, split_once, split_once_at, str_equal, trim, trimmed};
use vstd::prelude::*;
use vstd::string::*;

verus! {

/// One entry of the Telegram command menu.
#[derive(Debug, Clone)]
pub struct MenuEntry {
    pub command: String,
    pub description: String,
}

/// One command of a table: its name, its aliases (both without the
/// prefix), its description, and whether `/help` and the menu hide it.
#[derive(Debug, Clone)]
pub struct CommandDef {
    pub name: String,
    pub aliases: Vec<String>,
    pub description: String,
    pub hide: bool,
}

/// A parsed command: which command of the table, and its argument text.
#[derive(Debug, Clone)]
pub struct ParsedCommand {
    pub index: usize,
    pub args: String,
}

/// The commands of a bot, as the `CommandSpec` derive lays them out.
#[derive(Debug, Clone)]
pub struct CommandTable {
    /// The command prefix (`/` by default).
    pub prefix: String,
    /// What separates the command from its arguments (a space by default).
    pub separator: String,
    /// The heading of the `/help` text, when any.
    pub description: Option<String>,
    pub commands: Vec<CommandDef>,
}

// ---------------------------------------------------------------------------
// `/help` and the menu
// ---------------------------------------------------------------------------

/// `", /alias"` for every alias, in order.
pub open spec fn aliases_text(aliases: Seq<String>, prefix: Seq<char>) -> Seq<char>
    decreases aliases.len(),
{
    if aliases.len() == 0 {
        Seq::empty()
    } else {
        aliases_text(aliases.drop_last(), prefix) + seq![',', ' '] + prefix + aliases.last()@
    }
}

/// One `/help` line: the command and its aliases, then ` — description`
/// when there is one.
pub open spec fn help_line(c: CommandDef, prefix: Seq<char>) -> Seq<char> {
    let dash = seq![' ', '\u{2014}', ' '];
    prefix + c.name@ + aliases_text(c.aliases@, prefix) + (if c.description@.len() > 0 {
        dash + c.description@
    } else {
        Seq::empty()
    })
}

/// How many of `cmds` are shown.
pub open spec fn visible_count(cmds: Seq<CommandDef>) -> nat
    decreases cmds.len(),
{
    if cmds.len() == 0 {
        0
    } else {
        visible_count(cmds.drop_last()) + if cmds.last().hide { 0nat } else { 1nat }
    }
}

/// The `/help` lines of the shown commands, one per line.
pub open spec fn help_body(cmds: Seq<CommandDef>, prefix: Seq<char>) -> Seq<char>
    decreases cmds.len(),
{
    if cmds.len() == 0 {
        Seq::empty()
    } else {
        let prev = help_body(cmds.drop_last(), prefix);
        let c = cmds.last();
        if c.hide {
            prev
        } else if visible_count(cmds.drop_last()) > 0 {
            prev.push('\n') + help_line(c, prefix)
        } else {
            help_line(c, prefix)
        }
    }
}

/// The `/help` text: the table's description and a blank line (when it
/// has one), then one line per shown command.
pub open spec fn help_spec(t: CommandTable) -> Seq<char> {
    let head = match t.description {
        Some(d) => d@ + seq!['\n', '\n'],
        None => Seq::empty(),
    };
    head + help_body(t.commands@, t.prefix@)
}

/// The menu: the prefixed name and description of every shown command.
pub open spec fn menu_spec(cmds: Seq<CommandDef>, prefix: Seq<char>) -> Seq<(Seq<char>, Seq<char>)>
    decreases cmds.len(),
{
    if cmds.len() == 0 {
        Seq::empty()
    } else {
        let prev = menu_spec(cmds.drop_last(), prefix);
        let c = cmds.last();
        if c.hide {
            prev
        } else {
            prev.push((prefix + c.name@, c.description@))
        }
    }
}

/// The views of menu entries.
pub open spec fn menu_view(m: Seq<MenuEntry>) -> Seq<(Seq<char>, Seq<char>)> {
    m.map_values(|e: MenuEntry| (e.command@, e.description@))
}

// ---------------------------------------------------------------------------
// Parsing
// ---------------------------------------------------------------------------

/// `s.splitn(2, sep)`: the text before the first separator, and the text
/// after it when there is one.
pub open spec fn split_first(s: Seq<char>, sep: Seq<char>) -> (Seq<char>, Option<Seq<char>>) {
    match find_from(s, sep, 0) {
        Some(i) => (s.take(i), Some(s.skip(i + sep.len()))),
        None => (s, None),
    }
}

/// The command word (before any `@`) and the mentioned bot name (between
/// the first and any second `@`).
pub open spec fn split_mention(word: Seq<char>) -> (Seq<char>, Option<Seq<char>>) {
    match split_once(word, '@') {
        Some((command, after)) => (command, Some(match split_once(after, '@') {
            Some((u, _)) => u,
            None => after,
        })),
        None => (word, None),
    }
}

/// The first command among the first `k` whose prefixed name is `word`.
pub open spec fn name_match(cmds: Seq<CommandDef>, prefix: Seq<char>, word: Seq<char>, k: int) -> Option<int>
    decreases k,
{
    if k <= 0 || k > cmds.len() {
        None
    } else {
        match name_match(cmds, prefix, word, k - 1) {
            Some(i) => Some(i),
            None => if prefix + cmds[k - 1].name@ == word {
                Some(k - 1)
            } else {
                None
            },
        }
    }
}

/// `word` is `prefix` followed by one of `c`'s aliases.
pub open spec fn alias_of(c: CommandDef, prefix: Seq<char>, word: Seq<char>) -> bool {
    exists|j: int| 0 <= j < c.aliases@.len() && prefix + #[trigger] c.aliases@[j]@ == word
}

/// The first command among the first `k` that has `word` as an alias.
pub open spec fn alias_match(cmds: Seq<CommandDef>, prefix: Seq<char>, word: Seq<char>, k: int) -> Option<int>
    decreases k,
{
    if k <= 0 || k > cmds.len() {
        None
    } else {
        match alias_match(cmds, prefix, word, k - 1) {
            Some(i) => Some(i),
            None => if alias_of(cmds[k - 1], prefix, word) {
                Some(k - 1)
            } else {
                None
            },
        }
    }
}

/// How a message parses against a table: `None` when it mentions another
/// bot or names no command; otherwise the command (names are tried before
/// aliases) and the argument text.
pub open spec fn parse_spec(t: CommandTable, s: Seq<char>, bot_name: Seq<char>) -> Option<(int, Seq<char>)> {
    let (word, rest) = split_first(s, t.separator@);
    let (command, mention) = split_mention(word);
    let args = match rest {
        Some(r) => r,
        None => Seq::empty(),
    };
    let n = t.commands@.len() as int;
    if mention is Some && !eq_ascii_ci(mention->0, bot_name) {
        None
    } else {
        match name_match(t.commands@, t.prefix@, command, n) {
            Some(i) => Some((i, args)),
            None => match alias_match(t.commands@, t.prefix@, command, n) {
                Some(i) => Some((i, args)),
                None => None,
            },
        }
    }
}

impl CommandTable {
    /// The `/help` text.
    pub fn help(&self) -> (r: String)
        ensures
            r@ == help_spec(*self),
    {
        let mut out = String::new();
        match &self.description {
            Some(d) => {
                out.append(d.as_str());
                push_char(&mut out, '\n');
                push_char(&mut out, '\n');
            },
            None => {},
        }
        let ghost head = out@;
        let ghost cmds = self.commands@;
        let ghost p = self.prefix@;
        let mut shown: usize = 0;
        let mut i: usize = 0;
        assert(cmds.take(0) =~= Seq::<CommandDef>::empty());
        assert(out@ =~= head + help_body(cmds.take(0), p));
        while i < self.commands.len()
            invariant
                cmds == self.commands@,
                p == self.prefix@,
                i <= cmds.len(),
                shown == visible_count(cmds.take(i as int)),
                shown <= i,
                out@ == head + help_body(cmds.take(i as int), p),
            decreases cmds.len() - i,
        {
            let c = &self.commands[i];
            assert(cmds.take(i + 1).drop_last() =~= cmds.take(i as int));
            assert(cmds.take(i + 1).last() == *c);
            let ghost prev_out = out@;
            if !c.hide {
                if shown > 0 {
                    push_char(&mut out, '\n');
                }
                let ghost line_start = out@;
                out.append(self.prefix.as_str());
                out.append(c.name.as_str());
                let mut j: usize = 0;
                let ghost before = out@;
                assert(c.aliases@.take(0) =~= Seq::<String>::empty());
                while j < c.aliases.len()
                    invariant
                        j <= c.aliases@.len(),
                        p == self.prefix@,
                        out@ == before + aliases_text(c.aliases@.take(j as int), p),
                    decreases c.aliases.len() - j,
                {
                    push_char(&mut out, ',');
                    push_char(&mut out, ' ');
                    out.append(self.prefix.as_str());
                    out.append(c.aliases[j].as_str());
                    assert(c.aliases@.take(j + 1).drop_last() =~= c.aliases@.take(j as int));
                    j = j + 1;
                    assert(out@ =~= before + aliases_text(c.aliases@.take(j as int), p));
                }
                assert(c.aliases@.take(c.aliases@.len() as int) =~= c.aliases@);
                proof {
                    reveal_strlit(" \u{2014} ");
                }
                assert(" \u{2014} "@ =~= seq![' ', '\u{2014}', ' ']);
                if c.description.unicode_len() > 0 {
                    out.append(" \u{2014} ");
                    out.append(c.description.as_str());
                }
                assert(out@ =~= line_start + help_line(*c, p));
                shown = shown + 1;
            }
            proof {
                let t = cmds.take(i + 1);
                assert(t.drop_last() =~= cmds.take(i as int));
                if c.hide {
                    assert(help_body(t, p) == help_body(cmds.take(i as int), p));
                    assert(out@ =~= head + help_body(t, p));
                } else if visible_count(cmds.take(i as int)) > 0 {
                    assert(help_body(t, p) == help_body(cmds.take(i as int), p).push('\n') + help_line(*c, p));
                    assert(out@ =~= head + help_body(t, p));
                } else {
                    lemma_nothing_shown(cmds.take(i as int), p);
                    assert(help_body(t, p) == help_line(*c, p));
                    assert(out@ =~= head + help_body(t, p));
                }
            }
            i = i + 1;
        }
        assert(cmds.take(cmds.len() as int) =~= cmds);
        out
    }

    /// The Telegram menu: every shown command, prefixed, with its
    /// description.
    pub fn menu(&self) -> (r: Vec<MenuEntry>)
        ensures
            menu_view(r@) == menu_spec(self.commands@, self.prefix@),
    {
        let ghost cmds = self.commands@;
        let ghost p = self.prefix@;
        let mut out: Vec<MenuEntry> = Vec::new();
        let mut i: usize = 0;
        assert(cmds.take(0) =~= Seq::<CommandDef>::empty());
        assert(menu_view(out@) =~= menu_spec(cmds.take(0), p));
        while i < self.commands.len()
            invariant
                cmds == self.commands@,
                p == self.prefix@,
                i <= cmds.len(),
                menu_view(out@) == menu_spec(cmds.take(i as int), p),
            decreases cmds.len() - i,
        {
            let c = &self.commands[i];
            assert(cmds.take(i + 1).drop_last() =~= cmds.take(i as int));
            assert(cmds.take(i + 1).last() == *c);
            let ghost prev = out@;
            if !c.hide {
                let mut command = self.prefix.clone();
                command.append(c.name.as_str());
                out.push(MenuEntry { command, description: c.description.clone() });
                assert(menu_view(out@) =~= menu_view(prev).push((p + c.name@, c.description@)));
            }
            i = i + 1;
        }
        assert(cmds.take(cmds.len() as int) =~= cmds);
        out
    }

    /// The first command whose prefixed name is `word`.
    fn match_name(&self, word: &str) -> (r: Option<usize>)
        ensures
            match r {
                Some(i) => name_match(self.commands@, self.prefix@, word@, self.commands@.len() as int) == Some(
                    i as int,
                ),
                None => name_match(self.commands@, self.prefix@, word@, self.commands@.len() as int) is None,
            },
    {
        let mut k: usize = 0;
        while k < self.commands.len()
            invariant
                k <= self.commands@.len(),
                name_match(self.commands@, self.prefix@, word@, k as int) is None,
            decreases self.commands.len() - k,
        {
            let mut full = self.prefix.clone();
            full.append(self.commands[k].name.as_str());
            if str_equal(full.as_str(), word) {
                assert(name_match(self.commands@, self.prefix@, word@, k + 1) == Some(k as int));
                proof {
                    lemma_name_match_stable(self.commands@, self.prefix@, word@, k + 1, self.commands@.len() as int);
                }
                return Some(k);
            }
            k = k + 1;
        }
        None
    }

    /// The first command that has `word` as a prefixed alias.
    fn match_alias(&self, word: &str) -> (r: Option<usize>)
        ensures
            match r {
                Some(i) => alias_match(self.commands@, self.prefix@, word@, self.commands@.len() as int)
                    == Some(i as int),
                None => alias_match(self.commands@, self.prefix@, word@, self.commands@.len() as int) is None,
            },
    {
        let mut k: usize = 0;
        while k < self.commands.len()
            invariant
                k <= self.commands@.len(),
                alias_match(self.commands@, self.prefix@, word@, k as int) is None,
            decreases self.commands.len() - k,
        {
            let c = &self.commands[k];
            let mut j: usize = 0;
            while j < c.aliases.len()
                invariant
                    k < self.commands@.len(),
                    *c == self.commands@[k as int],
                    alias_match(self.commands@, self.prefix@, word@, k as int) is None,
                    j <= c.aliases@.len(),
                    forall|q: int| 0 <= q < j ==> self.prefix@ + #[trigger] c.aliases@[q]@ != word@,
                decreases c.aliases.len() - j,
            {
                let mut full = self.prefix.clone();
                full.append(c.aliases[j].as_str());
                if str_equal(full.as_str(), word) {
                    assert(self.prefix@ + c.aliases@[j as int]@ == word@);
                    assert(alias_of(*c, self.prefix@, word@));
                    assert(alias_match(self.commands@, self.prefix@, word@, k + 1) == Some(k as int));
                    proof {
                        lemma_alias_match_stable(self.commands@, self.prefix@, word@, k + 1, self.commands@.len() as int);
                    }
                    return Some(k);
                }
                j = j + 1;
            }
            assert(!alias_of(*c, self.prefix@, word@));
            k = k + 1;
        }
        None
    }

    /// Parse a message against the table: `None` when it is addressed to
    /// another bot or names no command; otherwise the command (names before
    /// aliases) and everything after the first separator as its argument.
    pub fn parse(&self, s: &str, bot_name: &str) -> (r: Option<ParsedCommand>)
        ensures
            match r {
                Some(p) => parse_spec(*self, s@, bot_name@) == Some((p.index as int, p.args@)),
                None => parse_spec(*self, s@, bot_name@) is None,
            },
    {
        let n = s.unicode_len();
        let (word, args) = match find_str(s, self.separator.as_str()) {
            Some(i) => {
                let m = self.separator.as_str().unicode_len();
                let w = s.substring_char(0, i);
                let a = s.substring_char(i + m, n);
                assert(w@ =~= s@.take(i as int));
                assert(a@ =~= s@.skip(i + m));
                (w, a)
            },
            None => {
                let e = s.substring_char(0, 0);
                assert(e@ =~= Seq::<char>::empty());
                (s, e)
            },
        };
        let command = match split_once_at(word, '@') {
            Some((command, after)) => {
                let mention = match split_once_at(after, '@') {
                    Some((u, _)) => u,
                    None => after,
                };
                if !eq_ignore_ascii_case(mention, bot_name) {
                    return None;
                }
                command
            },
            None => word,
        };
        let index = match self.match_name(command) {
            Some(i) => i,
            None => match self.match_alias(command) {
                Some(i) => i,
                None => return None,
            },
        };
        Some(ParsedCommand { index, args: args.to_owned() })
    }
}

// ---------------------------------------------------------------------------
// Building a table from an enum's declaration
// ---------------------------------------------------------------------------

/// The `#[command(...)]` options of a command enum.
#[derive(Debug, Clone, Default)]
pub struct EnumAttrs {
    /// How variant names become command names (`identity` when absent).
    pub rename_rule: Option<String>,
    /// The heading of the `/help` text.
    pub description: Option<String>,
    /// The command prefix (`/` when absent).
    pub prefix: Option<String>,
    /// What separates a command from its arguments (a space when absent).
    pub separator: Option<String>,
}

/// The fields of a command variant.
#[derive(Debug, Clone, Copy, PartialEq, Eq, Structural)]
pub enum Fields {
    /// No fields: the command takes no argument.
    Unit,
    /// Unnamed fields, this many of them.
    Unnamed(usize),
    /// Named fields.
    Named,
}

/// One variant of a command enum, with its `#[command(...)]` options.
#[derive(Debug, Clone)]
pub struct VariantDecl {
    /// The variant's identifier (e.g. `Price`).
    pub ident: String,
    pub fields: Fields,
    pub description: Option<String>,
    /// An explicit command name, which overrides the rename rule.
    pub rename: Option<String>,
    /// The raw `aliases` option: comma-separated alias names.
    pub aliases: Option<String>,
    /// Hidden from `/help` and the menu, but still parsed.
    pub hide: bool,
}

/// Why a command enum cannot be turned into a table.
#[derive(Debug, Clone)]
pub enum SpecError {
    /// The enum's rename rule is not one of the supported rules.
    InvalidRenameRule(String),
    /// The named variant has more than one unnamed field.
    FieldCount(String),
    /// The named variant has named fields.
    NamedFields(String),
    /// A `#[command(...)]` option with this key is not supported here.
    Unsupported(String),
    /// The `#[command(...)]` option with this key has a value of the wrong
    /// form (a missing or non-string value, or a value on `hide`).
    BadValue(String),
}

/// The rename rules and what each makes of a variant name; `None` for an
/// unsupported rule.
pub open spec fn rename_spec(rule: Seq<char>, name: Seq<char>) -> Option<Seq<char>> {
    if rule == "lowercase"@ {
        Some(lowercased(name))
    } else if rule == "UPPERCASE"@ {
        Some(uppercased(name))
    } else if rule == "PascalCase"@ {
        Some(pascal_cased(name))
    } else if rule == "camelCase"@ {
        Some(lower_camel_cased(name))
    } else if rule == "snake_case"@ {
        Some(snake_cased(name))
    } else if rule == "SCREAMING_SNAKE_CASE"@ {
        Some(shouty_snake_cased(name))
    } else if rule == "kebab-case"@ {
        Some(kebab_cased(name))
    } else if rule == "SCREAMING-KEBAB-CASE"@ {
        Some(shouty_kebab_cased(name))
    } else if rule == "identity"@ {
        Some(name)
    } else {
        None
    }
}

/// Apply a rename rule to a variant name.
pub fn apply_rename_rule(rule: &str, name: &str) -> (r: Result<String, SpecError>)
    ensures
        match r {
            Ok(s) => rename_spec(rule@, name@) == Some(s@),
            Err(e) => rename_spec(rule@, name@) is None && (e matches SpecError::InvalidRenameRule(x)
                && x@ == rule@),
        },
{
    if str_equal(rule, "lowercase") {
        Ok(to_lowercase(name))
    } else if str_equal(rule, "UPPERCASE") {
        Ok(to_uppercase(name))
    } else if str_equal(rule, "PascalCase") {
        Ok(to_pascal_case(name))
    } else if str_equal(rule, "camelCase") {
        Ok(to_lower_camel_case(name))
    } else if str_equal(rule, "snake_case") {
        Ok(to_snake_case(name))
    } else if str_equal(rule, "SCREAMING_SNAKE_CASE") {
        Ok(to_shouty_snake_case(name))
    } else if str_equal(rule, "kebab-case") {
        Ok(to_kebab_case(name))
    } else if str_equal(rule, "SCREAMING-KEBAB-CASE") {
        Ok(to_shouty_kebab_case(name))
    } else if str_equal(rule, "identity") {
        Ok(name.to_owned())
    } else {
        Err(SpecError::InvalidRenameRule(rule.to_owned()))
    }
}

/// `s.split(c)`: the pieces of `s` between occurrences of `c` (one empty
/// piece for an empty string).
pub open spec fn split_all(s: Seq<char>, c: char) -> Seq<Seq<char>>
    decreases s.len(),
{
    if s.len() == 0 {
        seq![s]
    } else if s.last() == c {
        split_all(s.drop_last(), c).push(Seq::empty())
    } else {
        let p = split_all(s.drop_last(), c);
        p.update(p.len() - 1, p.last().push(s.last()))
    }
}

/// The trimmed pieces that are not empty, in order.
pub open spec fn kept_pieces(pieces: Seq<Seq<char>>) -> Seq<Seq<char>>
    decreases pieces.len(),
{
    if pieces.len() == 0 {
        Seq::empty()
    } else {
        let prev = kept_pieces(pieces.drop_last());
        let t = trimmed(pieces.last());
        if t.len() > 0 {
            prev.push(t)
        } else {
            prev
        }
    }
}

/// The aliases named by a raw `aliases` option: split at commas, trimmed,
/// empty names dropped.
pub open spec fn aliases_spec(raw: Seq<char>) -> Seq<Seq<char>> {
    kept_pieces(split_all(raw, ','))
}

/// The characters of each string.
pub open spec fn strings_view(v: Seq<String>) -> Seq<Seq<char>> {
    v.map_values(|s: String| s@)
}

/// The alias names of a raw `aliases` option.
pub fn parse_aliases(raw: &str) -> (r: Vec<String>)
    ensures
        strings_view(r@) == aliases_spec(raw@),
{
    let n = raw.unicode_len();
    let mut out: Vec<String> = Vec::new();
    let mut cur = String::new();
    let mut i: usize = 0;
    assert(raw@.take(0) =~= Seq::<char>::empty());
    assert(strings_view(out@) =~= Seq::<Seq<char>>::empty());
    while i < n
        invariant
            n == raw@.len(),
            i <= n,
            split_all(raw@.take(i as int), ',').len() >= 1,
            strings_view(out@) == kept_pieces(split_all(raw@.take(i as int), ',').drop_last()),
            cur@ == split_all(raw@.take(i as int), ',').last(),
        decreases n - i,
    {
        let ch = raw.get_char(i);
        let ghost before = split_all(raw@.take(i as int), ',');
        assert(raw@.take(i + 1).drop_last() =~= raw@.take(i as int));
        assert(raw@.take(i + 1).last() == ch);
        if ch == ',' {
            let t = trim(cur.as_str());
            if t.unicode_len() > 0 {
                let ghost prev = out@;
                out.push(t.to_owned());
                assert(strings_view(out@) =~= strings_view(prev).push(t@));
            }
            cur = String::new();
            assert(split_all(raw@.take(i + 1), ',') == before.push(Seq::<char>::empty()));
            assert(split_all(raw@.take(i + 1), ',').drop_last() =~= before);
        } else {
            push_char(&mut cur, ch);
            let ghost after = split_all(raw@.take(i + 1), ',');
            assert(after == before.update(before.len() - 1, before.last().push(ch)));
            assert(after.drop_last() =~= before.drop_last());
        }
        i = i + 1;
    }
    assert(raw@.take(n as int) =~= raw@);
    let t = trim(cur.as_str());
    if t.unicode_len() > 0 {
        let ghost prev = out@;
        out.push(t.to_owned());
        assert(strings_view(out@) =~= strings_view(prev).push(t@));
    }
    out
}

/// The characters of an optional string, or `default`.
pub open spec fn opt_or(o: Option<String>, default: Seq<char>) -> Seq<char> {
    match o {
        Some(s) => s@,
        None => default,
    }
}

/// The rename rule of an enum (`identity` when absent).
pub open spec fn rule_of(a: EnumAttrs) -> Seq<char> {
    opt_or(a.rename_rule, "identity"@)
}

/// A variant's command name: its explicit rename, else its identifier
/// under the rule; `None` when the rule is unsupported.
pub open spec fn decl_name(rule: Seq<char>, v: VariantDecl) -> Option<Seq<char>> {
    match v.rename {
        Some(r) => Some(r@),
        None => rename_spec(rule, v.ident@),
    }
}

/// A variant takes no argument or exactly one.
pub open spec fn fields_ok(f: Fields) -> bool {
    match f {
        Fields::Unit => true,
        Fields::Unnamed(k) => k == 1,
        Fields::Named => false,
    }
}

/// A variant can be turned into a command.
pub open spec fn decl_ok(rule: Seq<char>, v: VariantDecl) -> bool {
    decl_name(rule, v) is Some && fields_ok(v.fields)
}

/// The aliases of a variant.
pub open spec fn decl_aliases(v: VariantDecl) -> Seq<Seq<char>> {
    match v.aliases {
        Some(raw) => aliases_spec(raw@),
        None => Seq::empty(),
    }
}

/// `c` is the command made of variant `v`.
pub open spec fn command_of(rule: Seq<char>, v: VariantDecl, c: CommandDef) -> bool {
    &&& decl_name(rule, v) == Some(c.name@)
    &&& strings_view(c.aliases@) == decl_aliases(v)
    &&& c.description@ == opt_or(v.description, Seq::empty())
    &&& c.hide == v.hide
}

/// `i` is the first variant that cannot be turned into a command.
pub open spec fn first_bad_at(rule: Seq<char>, decls: Seq<VariantDecl>, i: int) -> bool {
    &&& 0 <= i < decls.len()
    &&& !decl_ok(rule, decls[i])
    &&& forall|j: int| 0 <= j < i ==> decl_ok(rule, #[trigger] decls[j])
}

/// The error reported for a variant that cannot be turned into a command:
/// an unsupported rule first, then its fields.
pub open spec fn error_for(rule: Seq<char>, v: VariantDecl, e: SpecError) -> bool {
    if decl_name(rule, v) is None {
        e matches SpecError::InvalidRenameRule(x) && x@ == rule
    } else if v.fields is Named {
        e matches SpecError::NamedFields(x) && x@ == v.ident@
    } else {
        e matches SpecError::FieldCount(x) && x@ == v.ident@
    }
}

// ---------------------------------------------------------------------------
// `#[command(...)]` options
// ---------------------------------------------------------------------------

/// The value of one `#[command(...)]` option.
#[derive(Debug, Clone)]
pub enum MetaValue {
    /// No value: `hide`.
    Missing,
    /// A string literal: `description = "..."`.
    Str(String),
    /// Any other value.
    Other,
}

/// One `#[command(...)]` option: its key and its value.
#[derive(Debug, Clone)]
pub struct MetaItem {
    pub key: String,
    pub value: MetaValue,
}

/// The string value of the last option keyed `key`, when that value is a
/// string.
pub open spec fn last_str(items: Seq<MetaItem>, key: Seq<char>) -> Option<Seq<char>>
    decreases items.len(),
{
    if items.len() == 0 {
        None
    } else if items.last().key@ == key {
        match items.last().value {
            MetaValue::Str(v) => Some(v@),
            _ => None,
        }
    } else {
        last_str(items.drop_last(), key)
    }
}

/// An option is keyed `key`.
pub open spec fn has_key(items: Seq<MetaItem>, key: Seq<char>) -> bool {
    exists|i: int| 0 <= i < items.len() && (#[trigger] items[i]).key@ == key
}

/// The keys an enum takes: `rename_rule`, `description`, `prefix`,
/// `separator`, each with a string value.
pub open spec fn enum_key(k: Seq<char>) -> bool {
    k == "rename_rule"@ || k == "description"@ || k == "prefix"@ || k == "separator"@
}

/// The keys a variant takes: `description`, `rename`, `aliases` with a
/// string value, and `hide` with none.
pub open spec fn variant_key(k: Seq<char>) -> bool {
    k == "description"@ || k == "rename"@ || k == "aliases"@ || k == "hide"@
}

/// An option is well formed among the keys `known` accepts.
pub open spec fn meta_ok(it: MetaItem, variant: bool) -> bool {
    if variant {
        variant_key(it.key@) && if it.key@ == "hide"@ {
            it.value is Missing
        } else {
            it.value is Str
        }
    } else {
        enum_key(it.key@) && it.value is Str
    }
}

/// The error for a malformed option: an unknown key first, then its value.
pub open spec fn meta_error(it: MetaItem, variant: bool, e: SpecError) -> bool {
    if (variant && !variant_key(it.key@)) || (!variant && !enum_key(it.key@)) {
        e matches SpecError::Unsupported(k) && k@ == it.key@
    } else {
        e matches SpecError::BadValue(k) && k@ == it.key@
    }
}

/// `i` is the first malformed option.
pub open spec fn first_bad_meta(items: Seq<MetaItem>, variant: bool, i: int) -> bool {
    &&& 0 <= i < items.len()
    &&& !meta_ok(items[i], variant)
    &&& forall|j: int| 0 <= j < i ==> meta_ok(#[trigger] items[j], variant)
}

/// The characters of an optional string.
pub open spec fn opt_view(o: Option<String>) -> Option<Seq<char>> {
    match o {
        Some(s) => Some(s@),
        None => None,
    }
}

/// Check one option.
fn check_meta(it: &MetaItem, variant: bool) -> (r: Result<(), SpecError>)
    ensures
        r is Ok <==> meta_ok(*it, variant),
        r matches Err(e) ==> meta_error(*it, variant, e),
{
    let k = it.key.as_str();
    let known = if variant {
        str_equal(k, "description") || str_equal(k, "rename") || str_equal(k, "aliases") || str_equal(k, "hide")
    } else {
        str_equal(k, "rename_rule") || str_equal(k, "description") || str_equal(k, "prefix") || str_equal(
            k,
            "separator",
        )
    };
    if !known {
        return Err(SpecError::Unsupported(it.key.clone()));
    }
    let value_ok = if variant && str_equal(k, "hide") {
        match it.value {
            MetaValue::Missing => true,
            _ => false,
        }
    } else {
        match it.value {
            MetaValue::Str(_) => true,
            _ => false,
        }
    };
    if value_ok {
        Ok(())
    } else {
        Err(SpecError::BadValue(it.key.clone()))
    }
}

/// The string value of the last option keyed `key` (all options being
/// well formed).
fn last_value(items: &Vec<MetaItem>, key: &str) -> (r: Option<String>)
    ensures
        opt_view(r) == last_str(items@, key@),
{
    let mut out: Option<String> = None;
    let mut i: usize = 0;
    while i < items.len()
        invariant
            i <= items@.len(),
            opt_view(out) == last_str(items@.take(i as int), key@),
        decreases items.len() - i,
    {
        assert(items@.take(i + 1).drop_last() =~= items@.take(i as int));
        if str_equal(items[i].key.as_str(), key) {
            out = match &items[i].value {
                MetaValue::Str(v) => Some(v.clone()),
                _ => None,
            };
        }
        i = i + 1;
    }
    assert(items@.take(items@.len() as int) =~= items@);
    out
}

/// Check every option in order; the first malformed one is the error.
fn check_all(items: &Vec<MetaItem>, variant: bool) -> (r: Result<(), SpecError>)
    ensures
        r is Ok <==> forall|j: int| 0 <= j < items@.len() ==> meta_ok(#[trigger] items@[j], variant),
        r matches Err(e) ==> exists|i: int| first_bad_meta(items@, variant, i) && meta_error(#[trigger] items@[i], variant, e),
{
    let mut i: usize = 0;
    while i < items.len()
        invariant
            i <= items@.len(),
            forall|j: int| 0 <= j < i ==> meta_ok(#[trigger] items@[j], variant),
        decreases items.len() - i,
    {
        match check_meta(&items[i], variant) {
            Ok(()) => {},
            Err(e) => {
                assert(first_bad_meta(items@, variant, i as int));
                assert(meta_error(items@[i as int], variant, e));
                return Err(e);
            },
        }
        i = i + 1;
    }
    Ok(())
}

impl EnumAttrs {
    /// The options of a command enum, from its `#[command(...)]` items:
    /// each key takes a string, and a later value for a key replaces an
    /// earlier one; the first malformed item is the error.
    pub fn from_meta(items: &Vec<MetaItem>) -> (r: Result<EnumAttrs, SpecError>)
        ensures
            match r {
                Ok(a) => {
                    &&& forall|j: int| 0 <= j < items@.len() ==> meta_ok(#[trigger] items@[j], false)
                    &&& opt_view(a.rename_rule) == last_str(items@, "rename_rule"@)
                    &&& opt_view(a.description) == last_str(items@, "description"@)
                    &&& opt_view(a.prefix) == last_str(items@, "prefix"@)
                    &&& opt_view(a.separator) == last_str(items@, "separator"@)
                },
                Err(e) => exists|i: int|
                    first_bad_meta(items@, false, i) && meta_error(#[trigger] items@[i], false, e),
            },
    {
        check_all(items, false)?;
        Ok(
            EnumAttrs {
                rename_rule: last_value(items, "rename_rule"),
                description: last_value(items, "description"),
                prefix: last_value(items, "prefix"),
                separator: last_value(items, "separator"),
            },
        )
    }
}

impl VariantDecl {
    /// A variant of a command enum, from its identifier, its fields and its
    /// `#[command(...)]` items: `description`, `rename` and `aliases` take
    /// a string (a later value replaces an earlier one), `hide` takes none;
    /// the first malformed item is the error.
    pub fn from_meta(ident: String, fields: Fields, items: &Vec<MetaItem>) -> (r: Result<VariantDecl, SpecError>)
        ensures
            match r {
                Ok(v) => {
                    &&& forall|j: int| 0 <= j < items@.len() ==> meta_ok(#[trigger] items@[j], true)
                    &&& v.ident == ident
                    &&& v.fields == fields
                    &&& opt_view(v.description) == last_str(items@, "description"@)
                    &&& opt_view(v.rename) == last_str(items@, "rename"@)
                    &&& opt_view(v.aliases) == last_str(items@, "aliases"@)
                    &&& v.hide == has_key(items@, "hide"@)
                },
                Err(e) => exists|i: int|
                    first_bad_meta(items@, true, i) && meta_error(#[trigger] items@[i], true, e),
            },
    {
        check_all(items, true)?;
        let mut hidden = false;
        let mut i: usize = 0;
        while i < items.len()
            invariant
                i <= items@.len(),
                hidden == exists|j: int| 0 <= j < i && (#[trigger] items@[j]).key@ == "hide"@,
            decreases items.len() - i,
        {
            if str_equal(items[i].key.as_str(), "hide") {
                hidden = true;
            }
            i = i + 1;
        }
        Ok(
            VariantDecl {
                ident,
                fields,
                description: last_value(items, "description"),
                rename: last_value(items, "rename"),
                aliases: last_value(items, "aliases"),
                hide: hidden,
            },
        )
    }
}

/// The command name of a variant, checking that it can be a command.
fn command_name(rule: &str, v: &VariantDecl) -> (r: Result<String, SpecError>)
    ensures
        match r {
            Ok(n) => decl_ok(rule@, *v) && decl_name(rule@, *v) == Some(n@),
            Err(e) => !decl_ok(rule@, *v) && error_for(rule@, *v, e),
        },
{
    let name = match &v.rename {
        Some(r) => r.clone(),
        None => match apply_rename_rule(rule, v.ident.as_str()) {
            Ok(n) => n,
            Err(e) => return Err(e),
        },
    };
    match v.fields {
        Fields::Unit => {},
        Fields::Unnamed(k) => {
            if k != 1 {
                return Err(SpecError::FieldCount(v.ident.clone()));
            }
        },
        Fields::Named => {
            return Err(SpecError::NamedFields(v.ident.clone()));
        },
    }
    Ok(name)
}

impl CommandTable {
    /// The table of a command enum: one command per variant, in order.
    /// Fails on the first variant whose name cannot be formed (unsupported
    /// rename rule) or that takes more than one argument.
    pub fn from_decls(attrs: EnumAttrs, decls: &Vec<VariantDecl>) -> (r: Result<CommandTable, SpecError>)
        ensures
            match r {
                Ok(t) => {
                    &&& forall|i: int| 0 <= i < decls@.len() ==> decl_ok(rule_of(attrs), #[trigger] decls@[i])
                    &&& t.prefix@ == opt_or(attrs.prefix, "/"@)
                    &&& t.separator@ == opt_or(attrs.separator, " "@)
                    &&& t.description == attrs.description
                    &&& t.commands@.len() == decls@.len()
                    &&& forall|i: int|
                        0 <= i < decls@.len() ==> command_of(rule_of(attrs), decls@[i], #[trigger] t.commands@[i])
                },
                Err(e) => exists|i: int|
                    first_bad_at(rule_of(attrs), decls@, i) && error_for(rule_of(attrs), #[trigger] decls@[i], e),
            },
    {
        let ghost rule_spec = rule_of(attrs);
        let EnumAttrs { rename_rule, description, prefix, separator } = attrs;
        let rule: &str = match &rename_rule {
            Some(r) => r.as_str(),
            None => "identity",
        };
        proof {
            reveal_strlit("identity");
        }
        assert(rule@ == rule_spec);
        let mut commands: Vec<CommandDef> = Vec::new();
        let mut i: usize = 0;
        while i < decls.len()
            invariant
                rule@ == rule_spec,
                rule_spec == rule_of(attrs),
                i <= decls@.len(),
                commands@.len() == i,
                forall|j: int| 0 <= j < i ==> decl_ok(rule_spec, #[trigger] decls@[j]),
                forall|j: int| 0 <= j < i ==> command_of(rule_spec, decls@[j], #[trigger] commands@[j]),
            decreases decls.len() - i,
        {
            let v = &decls[i];
            let name = match command_name(rule, v) {
                Ok(n) => n,
                Err(e) => {
                    assert(*v == decls@[i as int]);
                    assert(first_bad_at(rule_spec, decls@, i as int));
                    assert(error_for(rule_spec, decls@[i as int], e));
                    return Err(e);
                },
            };
            let aliases = match &v.aliases {
                Some(raw) => parse_aliases(raw.as_str()),
                None => {
                    let empty: Vec<String> = Vec::new();
                    assert(strings_view(empty@) =~= Seq::<Seq<char>>::empty());
                    empty
                },
            };
            let desc = match &v.description {
                Some(d) => d.clone(),
                None => String::new(),
            };
            let c = CommandDef { name, aliases, description: desc, hide: v.hide };
            assert(command_of(rule_spec, *v, c));
            commands.push(c);
            i = i + 1;
        }
        let prefix = match prefix {
            Some(p) => p,
            None => "/".to_owned(),
        };
        let separator = match separator {
            Some(s) => s,
            None => " ".to_owned(),
        };
        Ok(CommandTable { prefix, separator, description, commands })
    }
}

/// Two tables that agree on their prefix, their separator, and every
/// command's name and aliases (descriptions and hiding may differ).
pub open spec fn same_words(a: CommandTable, b: CommandTable) -> bool {
    &&& a.prefix@ == b.prefix@
    &&& a.separator@ == b.separator@
    &&& a.commands@.len() == b.commands@.len()
    &&& forall|i: int|
        0 <= i < a.commands@.len() ==> (#[trigger] a.commands@[i]).name@ == b.commands@[i].name@ && strings_view(
            a.commands@[i].aliases@,
        ) == strings_view(b.commands@[i].aliases@)
}

proof fn lemma_same_matches(a: CommandTable, b: CommandTable, word: Seq<char>, k: int)
    requires
        same_words(a, b),
        0 <= k <= a.commands@.len(),
    ensures
        name_match(a.commands@, a.prefix@, word, k) == name_match(b.commands@, b.prefix@, word, k),
        alias_match(a.commands@, a.prefix@, word, k) == alias_match(b.commands@, b.prefix@, word, k),
    decreases k,
{
    if k > 0 {
        lemma_same_matches(a, b, word, k - 1);
        let ca = a.commands@[k - 1];
        let cb = b.commands@[k - 1];
        assert(ca.name@ == cb.name@);
        let va = strings_view(ca.aliases@);
        let vb = strings_view(cb.aliases@);
        assert(va == vb);
        assert(ca.aliases@.len() == va.len() && cb.aliases@.len() == vb.len());
        if alias_of(ca, a.prefix@, word) {
            let j = choose|j: int| 0 <= j < ca.aliases@.len() && a.prefix@ + #[trigger] ca.aliases@[j]@ == word;
            assert(va[j] == vb[j]);
            assert(b.prefix@ + cb.aliases@[j]@ == word);
        }
        if alias_of(cb, b.prefix@, word) {
            let j = choose|j: int| 0 <= j < cb.aliases@.len() && b.prefix@ + #[trigger] cb.aliases@[j]@ == word;
            assert(va[j] == vb[j]);
            assert(a.prefix@ + ca.aliases@[j]@ == word);
        }
    }
}

/// How a message parses depends only on the prefix, the separator, and
/// the commands' names and aliases: hidden commands still parse, and
/// descriptions play no part.
pub proof fn law_hidden_commands_still_parse(a: CommandTable, b: CommandTable, s: Seq<char>, bot_name: Seq<char>)
    requires
        same_words(a, b),
    ensures
        parse_spec(a, s, bot_name) == parse_spec(b, s, bot_name),
{
    let (word, rest) = split_first(s, a.separator@);
    let (command, mention) = split_mention(word);
    lemma_same_matches(a, b, command, a.commands@.len() as int);
}

/// The menu has one entry per shown command.
pub proof fn law_menu_lists_shown_commands(cmds: Seq<CommandDef>, prefix: Seq<char>)
    ensures
        menu_spec(cmds, prefix).len() == visible_count(cmds),
    decreases cmds.len(),
{
    if cmds.len() > 0 {
        law_menu_lists_shown_commands(cmds.drop_last(), prefix);
    }
}

proof fn lemma_find_past_prefix(w: Seq<char>, sep: Seq<char>, args: Seq<char>, k: int)
    requires
        0 <= k <= w.len(),
        find_from(w + sep, sep, k) == Some(w.len() as int),
    ensures
        find_from(w + sep + args, sep, k) == Some(w.len() as int),
    decreases w.len() - k,
{
    let s1 = w + sep;
    let s2 = w + sep + args;
    assert(k + sep.len() <= s1.len());
    assert(s1.subrange(w.len() as int, (w.len() + sep.len()) as int) =~= sep);
    assert(s2.subrange(k, k + sep.len()) =~= s1.subrange(k, k + sep.len()));
    assert(occurs_at(s1, sep, k) == occurs_at(s2, sep, k));
    if !occurs_at(s1, sep, k) {
        assert(k < w.len());
        assert(find_from(s1, sep, k) == find_from(s1, sep, k + 1));
        lemma_find_past_prefix(w, sep, args, k + 1);
        assert(find_from(s2, sep, k) == find_from(s2, sep, k + 1));
    }
}

proof fn lemma_no_name_before(cmds: Seq<CommandDef>, prefix: Seq<char>, word: Seq<char>, k: int)
    requires
        0 <= k <= cmds.len(),
        forall|j: int| 0 <= j < k ==> prefix + (#[trigger] cmds[j]).name@ != word,
    ensures
        name_match(cmds, prefix, word, k) is None,
    decreases k,
{
    if k > 0 {
        lemma_no_name_before(cmds, prefix, word, k - 1);
    }
}

/// A message that is a command's prefixed name (free of `@`), then the
/// separator and any argument text, parses to that command with that
/// argument text: to the first command of that name. "The separator comes
/// first after the name" is the condition that its first occurrence in
/// the name followed by the separator is at the end of the name.
pub proof fn law_named_command_parses(t: CommandTable, i: int, args: Seq<char>, bot_name: Seq<char>)
    requires
        0 <= i < t.commands@.len(),
        forall|j: int| 0 <= j < i ==> (#[trigger] t.commands@[j]).name@ != t.commands@[i].name@,
        forall|k: int|
            0 <= k < (t.prefix@ + t.commands@[i].name@).len() ==> (t.prefix@ + t.commands@[i].name@)[k] != '@',
        find_from(t.prefix@ + t.commands@[i].name@ + t.separator@, t.separator@, 0) == Some(
            (t.prefix@ + t.commands@[i].name@).len() as int,
        ),
    ensures
        parse_spec(t, t.prefix@ + t.commands@[i].name@ + t.separator@ + args, bot_name) == Some((i, args)),
{
    let w = t.prefix@ + t.commands@[i].name@;
    let sep = t.separator@;
    let s = w + sep + args;
    lemma_find_past_prefix(w, sep, args, 0);
    assert(s.take(w.len() as int) =~= w);
    assert(s.skip((w.len() + sep.len()) as int) =~= args);
    assert forall|j: int| 0 <= j < i implies t.prefix@ + (#[trigger] t.commands@[j]).name@ != w by {
        if t.prefix@ + t.commands@[j].name@ == w {
            assert((t.prefix@ + t.commands@[j].name@).skip(t.prefix@.len() as int) =~= t.commands@[j].name@);
            assert(w.skip(t.prefix@.len() as int) =~= t.commands@[i].name@);
        }
    }
    lemma_no_name_before(t.commands@, t.prefix@, w, i);
    assert(name_match(t.commands@, t.prefix@, w, i + 1) == Some(i));
    lemma_name_match_stable(t.commands@, t.prefix@, w, i + 1, t.commands@.len() as int);
    assert forall|k: int| !is_first_index(w, '@', k) by {
        if 0 <= k < w.len() {
            assert(w[k] != '@');
        }
    }
    assert(first_index_of(w, '@') is None);
}

/// With no command shown, the `/help` body is empty.
proof fn lemma_nothing_shown(cmds: Seq<CommandDef>, p: Seq<char>)
    requires
        visible_count(cmds) == 0,
    ensures
        help_body(cmds, p) == Seq::<char>::empty(),
    decreases cmds.len(),
{
    if cmds.len() > 0 {
        lemma_nothing_shown(cmds.drop_last(), p);
    }
}

proof fn lemma_name_match_stable(cmds: Seq<CommandDef>, prefix: Seq<char>, word: Seq<char>, j: int, k: int)
    requires
        0 <= j <= k <= cmds.len(),
        name_match(cmds, prefix, word, j) is Some,
    ensures
        name_match(cmds, prefix, word, k) == name_match(cmds, prefix, word, j),
    decreases k,
{
    if k > j {
        lemma_name_match_stable(cmds, prefix, word, j, k - 1);
    }
}

proof fn lemma_alias_match_stable(cmds: Seq<CommandDef>, prefix: Seq<char>, word: Seq<char>, j: int, k: int)
    requires
        0 <= j <= k <= cmds.len(),
        alias_match(cmds, prefix, word, j) is Some,
    ensures
        alias_match(cmds, prefix, word, k) == alias_match(cmds, prefix, word, j),
    decreases k,
{
    if k > j {
        lemma_alias_match_stable(cmds, prefix, word, j, k - 1);
    }
}


proof fn lemma_no_alias_before(cmds: Seq<CommandDef>, prefix: Seq<char>, word: Seq<char>, k: int)
    requires
        0 <= k <= cmds.len(),
        forall|m: int, a: int|
            0 <= m < k && 0 <= a < cmds[m].aliases@.len() ==> prefix + (#[trigger] cmds[m].aliases@[a])@ != word,
    ensures
        alias_match(cmds, prefix, word, k) is None,
    decreases k,
{
    if k > 0 {
        lemma_no_alias_before(cmds, prefix, word, k - 1);
        let c = cmds[k - 1];
        assert(!alias_of(c, prefix, word)) by {
            if alias_of(c, prefix, word) {
                let a = choose|a: int| 0 <= a < c.aliases@.len() && prefix + #[trigger] c.aliases@[a]@ == word;
                assert(prefix + cmds[k - 1].aliases@[a]@ != word);
            }
        }
    }
}

/// A message that is the prefix and any one of a command's aliases (free
/// of `@`), then the separator and any argument text, parses to that
/// command with that argument text, whichever of its aliases it is: when
/// no command is named that way and no earlier command has that alias.
/// "The separator comes first after the alias" is the condition that its
/// first occurrence in the alias followed by the separator is at the end
/// of the alias.
pub proof fn law_every_alias_parses(t: CommandTable, i: int, j: int, args: Seq<char>, bot_name: Seq<char>)
    requires
        0 <= i < t.commands@.len(),
        0 <= j < t.commands@[i].aliases@.len(),
        forall|k: int|
            0 <= k < t.commands@.len() ==> t.prefix@ + (#[trigger] t.commands@[k]).name@ != t.prefix@
                + t.commands@[i].aliases@[j]@,
        forall|k: int, a: int|
            0 <= k < i && 0 <= a < t.commands@[k].aliases@.len() ==> (#[trigger] t.commands@[k].aliases@[a])@
                != t.commands@[i].aliases@[j]@,
        forall|k: int|
            0 <= k < (t.prefix@ + t.commands@[i].aliases@[j]@).len() ==> (t.prefix@
                + t.commands@[i].aliases@[j]@)[k] != '@',
        find_from(t.prefix@ + t.commands@[i].aliases@[j]@ + t.separator@, t.separator@, 0) == Some(
            (t.prefix@ + t.commands@[i].aliases@[j]@).len() as int,
        ),
    ensures
        parse_spec(t, t.prefix@ + t.commands@[i].aliases@[j]@ + t.separator@ + args, bot_name) == Some((i, args)),
{
    let cmds = t.commands@;
    let p = t.prefix@;
    let w = p + cmds[i].aliases@[j]@;
    let sep = t.separator@;
    let s = w + sep + args;
    let n = cmds.len() as int;
    lemma_find_past_prefix(w, sep, args, 0);
    assert(s.take(w.len() as int) =~= w);
    assert(s.skip((w.len() + sep.len()) as int) =~= args);
    lemma_no_name_before(cmds, p, w, n);
    assert forall|m: int, a: int| 0 <= m < i && 0 <= a < cmds[m].aliases@.len() implies p + (
    #[trigger] cmds[m].aliases@[a])@ != w by {
        if p + cmds[m].aliases@[a]@ == w {
            assert((p + cmds[m].aliases@[a]@).skip(p.len() as int) =~= cmds[m].aliases@[a]@);
            assert(w.skip(p.len() as int) =~= cmds[i].aliases@[j]@);
        }
    }
    lemma_no_alias_before(cmds, p, w, i);
    assert(alias_of(cmds[i], p, w));
    assert(alias_match(cmds, p, w, i + 1) == Some(i));
    lemma_alias_match_stable(cmds, p, w, i + 1, n);
    assert forall|k: int| !is_first_index(w, '@', k) by {
        if 0 <= k < w.len() {
            assert(w[k] != '@');
        }
    }
    assert(first_index_of(w, '@') is None);
}


/// The number of characters that `", /alias"` takes for every alias.
pub open spec fn alias_chars(aliases: Seq<String>, prefix: Seq<char>) -> int
    decreases aliases.len(),
{
    if aliases.len() == 0 {
        0
    } else {
        alias_chars(aliases.drop_last(), prefix) + 2 + prefix.len() + aliases.last()@.len()
    }
}

proof fn lemma_aliases_text_len(aliases: Seq<String>, prefix: Seq<char>)
    ensures
        aliases_text(aliases, prefix).len() == alias_chars(aliases, prefix),
    decreases aliases.len(),
{
    if aliases.len() > 0 {
        lemma_aliases_text_len(aliases.drop_last(), prefix);
    }
}

proof fn lemma_aliases_text_prefix(aliases: Seq<String>, prefix: Seq<char>, j: int)
    requires
        0 <= j <= aliases.len(),
    ensures
        aliases_text(aliases.take(j), prefix).len() <= aliases_text(aliases, prefix).len(),
        aliases_text(aliases, prefix).take(aliases_text(aliases.take(j), prefix).len() as int) == aliases_text(
            aliases.take(j),
            prefix,
        ),
    decreases aliases.len(),
{
    let full = aliases_text(aliases, prefix);
    if j == aliases.len() {
        assert(aliases.take(j) =~= aliases);
        assert(full.take(full.len() as int) =~= full);
    } else {
        let d = aliases.drop_last();
        lemma_aliases_text_prefix(d, prefix, j);
        assert(d.take(j) =~= aliases.take(j));
        let part = aliases_text(aliases.take(j), prefix);
        let dt = aliases_text(d, prefix);
        assert(full == dt + seq![',', ' '] + prefix + aliases.last()@);
        assert(full.take(part.len() as int) =~= dt.take(part.len() as int));
    }
}

/// The `/help` line of a command lists every one of its aliases, in the
/// order they were declared: after the prefixed name, the `j`-th alias
/// appears as `", "`, the prefix and the alias, right after the text of
/// the aliases before it.
pub proof fn law_help_line_lists_every_alias(c: CommandDef, prefix: Seq<char>, j: int)
    requires
        0 <= j < c.aliases@.len(),
    ensures
        ({
            let pos = (prefix + c.name@).len() + alias_chars(c.aliases@.take(j), prefix);
            let item = seq![',', ' '] + prefix + c.aliases@[j]@;
            &&& pos + item.len() <= help_line(c, prefix).len()
            &&& help_line(c, prefix).subrange(pos, pos + item.len()) == item
        }),
{
    let a = c.aliases@;
    let head = prefix + c.name@;
    let at = aliases_text(a, prefix);
    let pre = aliases_text(a.take(j), prefix);
    let item = seq![',', ' '] + prefix + a[j]@;
    assert(a.take(j + 1).drop_last() =~= a.take(j));
    assert(a.take(j + 1).last() == a[j]);
    let upto = aliases_text(a.take(j + 1), prefix);
    assert(upto == pre + item);
    lemma_aliases_text_prefix(a, prefix, j + 1);
    lemma_aliases_text_len(a.take(j), prefix);
    let dash = seq![' ', '\u{2014}', ' '];
    let tail = if c.description@.len() > 0 {
        dash + c.description@
    } else {
        Seq::empty()
    };
    let hl = help_line(c, prefix);
    assert(hl == head + at + tail);
    let pos: int = head.len() as int + pre.len() as int;
    let end: int = pos + item.len() as int;
    assert forall|k: int| 0 <= k < item.len() implies hl.subrange(pos, end)[k] == item[k] by {
        assert(hl[pos + k] == at[pre.len() + k]);
        assert(at.take(upto.len() as int)[pre.len() + k] == upto[pre.len() + k]);
    }
    assert(hl.subrange(pos, end) =~= item);
}

} // verus!
