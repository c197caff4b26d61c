//! Built-in slash commands: recognising `/help` and `/stats` addressed to
//! this bot, and rendering their replies.

use crate::blocks::{Block, LineView};
use crate::command::MenuEntry;
use crate::metrics::Health;
use crate::text::{
    decimal, eq_ascii_ci, eq_ignore_ascii_case, split_once, split_once_at, str_equal, u64_to_string,
};
use vstd::prelude::*;
use vstd::arithmetic::div_mod::lemma_fundamental_div_mod_converse;
use vstd::string::*;

verus! {

/// The command word of a message: everything before the first space.
pub open spec fn head_of(text: Seq<char>) -> Seq<char> {
    match split_once(text, ' ') {
        Some((h, _)) => h,
        None => text,
    }
}

/// `text` is `command` addressed to this bot: its command word is
/// `command`, alone or followed by `@` and the bot's name (in any ASCII
/// case).
pub open spec fn addressed_spec(command: Seq<char>, text: Seq<char>, bot_name: Seq<char>) -> bool {
    let head = head_of(text);
    match split_once(head, '@') {
        Some((name, mention)) => name == command && (mention.len() == 0 || eq_ascii_ci(mention, bot_name)),
        None => head == command,
    }
}

/// `text` is `command` addressed to this bot.
pub fn is_addressed(command: &str, text: &str, bot_name: &str) -> (r: bool)
    ensures
        r == addressed_spec(command@, text@, bot_name@),
{
    let head = match split_once_at(text, ' ') {
        Some((h, _)) => h,
        None => text,
    };
    match split_once_at(head, '@') {
        Some((name, mention)) => str_equal(name, command) && (mention.is_empty() || eq_ignore_ascii_case(
            mention,
            bot_name,
        )),
        None => str_equal(head, command),
    }
}

/// `text` is a `/help` command addressed to this bot.
pub fn is_help(text: &str, bot_name: &str) -> (r: bool)
    ensures
        r == addressed_spec("/help"@, text@, bot_name@),
{
    is_addressed("/help", text, bot_name)
}

/// `text` is a `/stats` command addressed to this bot.
pub fn is_stats(text: &str, bot_name: &str) -> (r: bool)
    ensures
        r == addressed_spec("/stats"@, text@, bot_name@),
{
    is_addressed("/stats", text, bot_name)
}

/// An uptime in the largest two units: `"2d 1h"`, `"3h 5m"`, or `"5m"`.
pub open spec fn duration_spec(secs: u64) -> Seq<char> {
    let days = secs / 86400;
    let hours = (secs % 86400) / 3600;
    let minutes = (secs % 3600) / 60;
    if days > 0 {
        decimal(days as nat) + seq!['d', ' '] + decimal(hours as nat) + seq!['h']
    } else if hours > 0 {
        decimal(hours as nat) + seq!['h', ' '] + decimal(minutes as nat) + seq!['m']
    } else {
        decimal(minutes as nat) + seq!['m']
    }
}

/// Format a number of seconds as an uptime.
pub fn fmt_duration(secs: u64) -> (r: String)
    ensures
        r@ == duration_spec(secs),
{
    let days = secs / 86_400;
    let hours = (secs % 86_400) / 3_600;
    let minutes = (secs % 3_600) / 60;
    proof {
        reveal_strlit("d ");
        reveal_strlit("h");
        reveal_strlit("h ");
        reveal_strlit("m");
    }
    if days > 0 {
        let mut out = u64_to_string(days);
        out.append("d ");
        out.append(u64_to_string(hours).as_str());
        out.append("h");
        assert(out@ =~= duration_spec(secs));
        out
    } else if hours > 0 {
        let mut out = u64_to_string(hours);
        out.append("h ");
        out.append(u64_to_string(minutes).as_str());
        out.append("m");
        assert(out@ =~= duration_spec(secs));
        out
    } else {
        let mut out = u64_to_string(minutes);
        out.append("m");
        assert(out@ =~= duration_spec(secs));
        out
    }
}

/// The `/stats` reply for a health snapshot.
pub open spec fn stats_spec(h: Health) -> Seq<LineView> {
    seq![
        LineView::Text("\u{1F4CA} "@ + h.service@ + " v"@ + h.version@),
        LineView::Text("uptime: "@ + duration_spec(h.uptime_secs)),
        LineView::Text("telegram: "@ + h.telegram@),
        LineView::Text("commands: "@ + decimal(h.commands_total as nat)),
        LineView::Text(
            "jobs: "@ + decimal(h.jobs_active as nat) + " active \u{b7} "@ + decimal(h.jobs_failed_total as nat)
                + " failed"@,
        ),
        LineView::Text("panics: "@ + decimal(h.panics_total as nat)),
    ]
}

/// Render a health snapshot as the `/stats` text block.
pub fn render_stats(health: &Health) -> (b: Block)
    ensures
        b@ == stats_spec(*health),
{
    proof {
        reveal_strlit("\u{1F4CA} ");
        reveal_strlit(" v");
        reveal_strlit("uptime");
        reveal_strlit("telegram");
        reveal_strlit("commands");
        reveal_strlit(" active \u{b7} ");
        reveal_strlit(" failed");
        reveal_strlit("jobs");
        reveal_strlit("panics");
        reveal_strlit("uptime: ");
        reveal_strlit("telegram: ");
        reveal_strlit("commands: ");
        reveal_strlit("jobs: ");
        reveal_strlit("panics: ");
    }
    let ghost want = stats_spec(*health);
    let mut block = Block::new();
    let mut title = String::from_str("\u{1F4CA} ");
    title.append(health.service);
    title.append(" v");
    title.append(health.version);
    block.line(title.as_str());
    let uptime = fmt_duration(health.uptime_secs);
    block.kv("uptime", uptime.as_str());
    block.kv("telegram", health.telegram);
    let commands = u64_to_string(health.commands_total);
    block.kv("commands", commands.as_str());
    let mut jobs = u64_to_string(health.jobs_active as u64);
    jobs.append(" active \u{b7} ");
    jobs.append(u64_to_string(health.jobs_failed_total).as_str());
    jobs.append(" failed");
    block.kv("jobs", jobs.as_str());
    let panics = u64_to_string(health.panics_total);
    block.kv("panics", panics.as_str());
    let ghost got = block@;
    assert(got.len() == 6);
    assert(got[0] matches LineView::Text(t) && t =~= want[0]->Text_0);
    assert(got[1] matches LineView::Text(t) && t =~= want[1]->Text_0);
    assert(got[2] matches LineView::Text(t) && t =~= want[2]->Text_0);
    assert(got[3] matches LineView::Text(t) && t =~= want[3]->Text_0);
    assert(got[4] matches LineView::Text(t) && t =~= want[4]->Text_0);
    assert(got[5] matches LineView::Text(t) && t =~= want[5]->Text_0);
    assert(got =~= want);
    block
}


/// The `/help` reply: the command list, the built-in commands, and an
/// optional tail block after a blank line.
pub open spec fn help_spec(help: Seq<char>, extra: Option<Seq<LineView>>) -> Seq<LineView> {
    let head = seq![
        LineView::Text(help),
        LineView::Blank,
        LineView::Text("/help \u{2014} Show help"@),
        LineView::Text("/stats \u{2014} Show bot stats"@),
    ];
    match extra {
        Some(e) => head.push(LineView::Blank) + e,
        None => head,
    }
}

/// Render the command list, the built-in commands, and an optional tail.
pub fn render_help(help: &str, extra: Option<&Block>) -> (b: Block)
    ensures
        b@ == help_spec(help@, match extra { Some(e) => Some(e@), None => None }),
{
    let mut block = Block::new();
    block.line(help);
    block.blank();
    block.line("/help \u{2014} Show help");
    block.line("/stats \u{2014} Show bot stats");
    match extra {
        Some(e) => {
            block.blank();
            block.push_block(e.duplicate());
        },
        None => {},
    }
    block
}

/// The menu entry of the built-in `/stats` command.
pub fn stats_entry() -> (e: MenuEntry)
    ensures
        e.command@ == "/stats"@,
        e.description@ == "Show bot stats"@,
{
    MenuEntry { command: "/stats".to_owned(), description: "Show bot stats".to_owned() }
}

/// The menu entry of the built-in `/help` command.
pub fn help_entry() -> (e: MenuEntry)
    ensures
        e.command@ == "/help"@,
        e.description@ == "Show help"@,
{
    MenuEntry { command: "/help".to_owned(), description: "Show help".to_owned() }
}


/// The uptime text names the largest units that fit, read back to within
/// one unit of the smallest shown: at least a day reads as `"<d>d <h>h"`
/// with `d` whole days and `h < 24` further whole hours; at least an hour
/// (and under a day) as `"<h>h <m>m"` with `m < 60` further whole minutes;
/// anything shorter as `"<m>m"` in whole minutes.
pub proof fn law_uptime_reads_back(secs: u64, d: nat, h: nat, m: nat)
    ensures
        (d >= 1 && h < 24 && d * 86400 + h * 3600 <= secs < d * 86400 + h * 3600 + 3600) ==> duration_spec(secs)
            == decimal(d) + seq!['d', ' '] + decimal(h) + seq!['h'],
        (h >= 1 && h < 24 && m < 60 && h * 3600 + m * 60 <= secs < h * 3600 + m * 60 + 60) ==> duration_spec(
            secs,
        ) == decimal(h) + seq!['h', ' '] + decimal(m) + seq!['m'],
        (secs < 3600 && m * 60 <= secs < m * 60 + 60) ==> duration_spec(secs) == decimal(m) + seq!['m'],
{
    let x = secs as int;
    if d >= 1 && h < 24 && d * 86400 + h * 3600 <= secs < d * 86400 + h * 3600 + 3600 {
        let r = x - d * 86400;
        lemma_fundamental_div_mod_converse(x, 86400, d as int, r);
        let r2 = r - h * 3600;
        lemma_fundamental_div_mod_converse(r, 3600, h as int, r2);
    }
    if h >= 1 && h < 24 && m < 60 && h * 3600 + m * 60 <= secs < h * 3600 + m * 60 + 60 {
        lemma_fundamental_div_mod_converse(x, 86400, 0, x);
        let r = x - h * 3600;
        lemma_fundamental_div_mod_converse(x, 3600, h as int, r);
        let r2 = r - m * 60;
        lemma_fundamental_div_mod_converse(r, 60, m as int, r2);
    }
    if secs < 3600 && m * 60 <= secs < m * 60 + 60 {
        lemma_fundamental_div_mod_converse(x, 86400, 0, x);
        lemma_fundamental_div_mod_converse(x, 3600, 0, x);
        let r2 = x - m * 60;
        lemma_fundamental_div_mod_converse(x, 60, m as int, r2);
    }
}

} // verus!
