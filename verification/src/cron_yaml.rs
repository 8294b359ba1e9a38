//! The schedule file: a small YAML subset with a `schedules:` list.

use vstd::prelude::*;

use crate::errors::Error;
use crate::text::chars_string;
use crate::text::lower_of;
use crate::text::ltrim;
use crate::text::rtrim;
use crate::text::rtrim_chars;
use crate::text::str_chars;
use crate::text::to_lowercase;
use crate::text::trim;
use crate::text::trim_chars;

verus! {

/// The longest prompt a schedule may carry, in characters.
pub open spec fn max_prompt_len() -> int {
    10000
}

/// One scheduled prompt.
#[derive(Clone, Debug)]
pub struct CronSchedule {
    pub name: String,
    pub cron: String,
    pub prompt: String,
    pub enabled: bool,
    pub notify: bool,
}

/// A schedule is valid when name, cron and prompt are non-blank and
/// the prompt is not overlong.
pub open spec fn spec_schedule_valid(s: &CronSchedule) -> bool {
    &&& trim(s.name@).len() > 0
    &&& trim(s.cron@).len() > 0
    &&& trim(s.prompt@).len() > 0
    &&& s.prompt@.len() <= max_prompt_len()
}

/// The parsed schedule file.
#[derive(Clone, Debug)]
pub struct CronConfig {
    pub schedules: Vec<CronSchedule>,
}

/// Reject a schedule with a blank name, cron or prompt, or an overlong
/// prompt.
pub fn validate_schedule(s: &CronSchedule) -> (r: Result<(), Error>)
    ensures
        r is Ok <==> spec_schedule_valid(s),
        r matches Err(e) ==> e is Config,
{
    let nc = str_chars(s.name.as_str());
    let nt = trim_chars(&nc);
    if nt.len() == 0 {
        return Err(Error::Config(cfg_text("cron schedule missing name")));
    }
    let cc = str_chars(s.cron.as_str());
    let ct = trim_chars(&cc);
    if ct.len() == 0 {
        return Err(Error::Config(cfg_text("cron schedule missing cron")));
    }
    let pc = str_chars(s.prompt.as_str());
    let pt = trim_chars(&pc);
    if pt.len() == 0 {
        return Err(Error::Config(cfg_text("cron schedule missing prompt")));
    }
    if pc.len() > 10000 {
        return Err(Error::Config(cfg_text("cron schedule prompt too long")));
    }
    Ok(())
}

fn cfg_text(s: &str) -> (r: String)
    ensures
        r@ == s@,
{
    let c = str_chars(s);
    chars_string(&c)
}

/// Count the leading spaces of a line.
pub open spec fn spec_indent(s: Seq<char>) -> int
    decreases s.len(),
{
    if s.len() > 0 && s[0] == ' ' {
        1 + spec_indent(s.drop_first())
    } else {
        0
    }
}

/// The number of leading spaces.
pub fn count_indent(line: &Vec<char>) -> (r: usize)
    ensures
        r == spec_indent(line@),
{
    let n = line.len();
    let mut i: usize = 0;
    proof {
        assert(line@.skip(0) =~= line@);
    }
    while i < n && line[i] == ' '
        invariant
            i <= n,
            n == line@.len(),
            spec_indent(line@) == i + spec_indent(line@.skip(i as int)),
        decreases n - i,
    {
        proof {
            assert(line@.skip(i as int)[0] == line@[i as int]);
            assert(line@.skip(i as int).drop_first() =~= line@.skip(i + 1));
        }
        i += 1;
    }
    proof {
        if i < n {
            assert(line@.skip(i as int)[0] == line@[i as int]);
            assert(spec_indent(line@.skip(i as int)) == 0);
        } else {
            assert(line@.skip(i as int) =~= Seq::<char>::empty());
        }
    }
    i
}

/// A trimmed value with one pair of matching quotes removed.
pub open spec fn spec_strip_quotes(s: Seq<char>) -> Seq<char> {
    let t = trim(s);
    if t.len() >= 2 && ((t[0] == '"' && t[t.len() - 1] == '"') || (t[0] == '\'' && t[t.len() - 1]
        == '\'')) {
        t.subrange(1, t.len() - 1)
    } else {
        t
    }
}

/// Trim and strip one pair of surrounding quotes.
pub fn strip_quotes(s: &Vec<char>) -> (r: Vec<char>)
    ensures
        r@ == spec_strip_quotes(s@),
{
    let t = trim_chars(s);
    if t.len() >= 2 && ((t[0] == '"' && t[t.len() - 1] == '"') || (t[0] == '\'' && t[t.len() - 1]
        == '\'')) {
        let mut out: Vec<char> = Vec::new();
        crate::text::push_range(&mut out, &t, 1, t.len() - 1);
        proof {
            assert(out@ =~= trim(s@).subrange(1, trim(s@).len() - 1));
        }
        return out;
    }
    t
}

/// The truthy and falsy words the file accepts, compared lowercase.
pub open spec fn spec_parse_bool(s: Seq<char>) -> Option<bool> {
    let l = lower_of(trim(s));
    if l == seq!['t', 'r', 'u', 'e'] || l == seq!['y', 'e', 's'] || l == seq!['o', 'n'] || l
        == seq!['1'] {
        Some(true)
    } else if l == seq!['f', 'a', 'l', 's', 'e'] || l == seq!['n', 'o'] || l == seq!['o', 'f', 'f']
        || l == seq!['0'] {
        Some(false)
    } else {
        None
    }
}

/// Parse a boolean word: true/yes/on/1 or false/no/off/0, any case.
pub fn parse_bool(s: &Vec<char>) -> (r: Option<bool>)
    ensures
        r == spec_parse_bool(s@),
{
    let t = trim_chars(s);
    let ts = chars_string(&t);
    let l = to_lowercase(ts.as_str());
    let lc = str_chars(l.as_str());
    let t_true = str_chars("true");
    let t_yes = str_chars("yes");
    let t_on = str_chars("on");
    let t_one = str_chars("1");
    let f_false = str_chars("false");
    let f_no = str_chars("no");
    let f_off = str_chars("off");
    let f_zero = str_chars("0");
    proof {
        reveal_strlit("true");
        reveal_strlit("yes");
        reveal_strlit("on");
        reveal_strlit("1");
        reveal_strlit("false");
        reveal_strlit("no");
        reveal_strlit("off");
        reveal_strlit("0");
        assert(t_true@ =~= seq!['t', 'r', 'u', 'e']);
        assert(t_yes@ =~= seq!['y', 'e', 's']);
        assert(t_on@ =~= seq!['o', 'n']);
        assert(t_one@ =~= seq!['1']);
        assert(f_false@ =~= seq!['f', 'a', 'l', 's', 'e']);
        assert(f_no@ =~= seq!['n', 'o']);
        assert(f_off@ =~= seq!['o', 'f', 'f']);
        assert(f_zero@ =~= seq!['0']);
    }
    if crate::text::chars_eq(&lc, &t_true) || crate::text::chars_eq(&lc, &t_yes)
        || crate::text::chars_eq(&lc, &t_on) || crate::text::chars_eq(&lc, &t_one) {
        return Some(true);
    }
    if crate::text::chars_eq(&lc, &f_false) || crate::text::chars_eq(&lc, &f_no)
        || crate::text::chars_eq(&lc, &f_off) || crate::text::chars_eq(&lc, &f_zero) {
        return Some(false);
    }
    None
}

/// Strip trailing newline characters.
fn strip_trailing_newlines(s: &Vec<char>) -> (r: Vec<char>)
    ensures
        r@.len() <= s@.len(),
{
    let mut hi: usize = s.len();
    while hi > 0 && s[hi - 1] == '\n'
        invariant
            hi <= s@.len(),
        decreases hi,
    {
        hi -= 1;
    }
    let mut out: Vec<char> = Vec::new();
    crate::text::push_range(&mut out, s, 0, hi);
    out
}

/// Apply one `key: value` pair to the schedule being built.  For
/// `prompt: |` the following deeper-indented lines form the value and
/// the cursor `i` moves past them.
pub fn parse_schedule_kv(
    kv: &Vec<char>,
    current: &mut CronSchedule,
    i: &mut usize,
    lines: &Vec<Vec<char>>,
    indent: usize,
)
    requires
        *old(i) <= lines@.len(),
        indent <= 1000000,
    ensures
        *old(i) <= *final(i) <= lines@.len(),
{
    // Split at the first colon.
    let n = kv.len();
    let mut colon: Option<usize> = None;
    let mut ci: usize = 0;
    while ci < n
        invariant
            ci <= n,
            n == kv@.len(),
            colon matches Some(j) ==> j < kv@.len(),
        decreases n - ci,
    {
        if kv[ci] == ':' {
            colon = Some(ci);
            break ;
        }
        ci += 1;
    }
    let cpos = match colon {
        Some(j) => j,
        None => {
            return ;
        },
    };
    let mut kv_key: Vec<char> = Vec::new();
    crate::text::push_range(&mut kv_key, kv, 0, cpos);
    let key = trim_chars(&kv_key);
    let mut kv_val: Vec<char> = Vec::new();
    crate::text::push_range(&mut kv_val, kv, cpos + 1, kv.len());
    let value = trim_chars(&kv_val);

    let k_name = str_chars("name");
    let k_cron = str_chars("cron");
    let k_enabled = str_chars("enabled");
    let k_notify = str_chars("notify");
    let k_prompt = str_chars("prompt");
    proof {
        reveal_strlit("name");
        reveal_strlit("cron");
        reveal_strlit("enabled");
        reveal_strlit("notify");
        reveal_strlit("prompt");
    }
    if crate::text::chars_eq(&key, &k_name) {
        let v = strip_quotes(&kv_val);
        current.name = chars_string(&v);
        return ;
    }
    if crate::text::chars_eq(&key, &k_cron) {
        let v = strip_quotes(&kv_val);
        current.cron = chars_string(&v);
        return ;
    }
    if crate::text::chars_eq(&key, &k_enabled) {
        current.enabled = match parse_bool(&value) {
            Some(b) => b,
            None => true,
        };
        return ;
    }
    if crate::text::chars_eq(&key, &k_notify) {
        current.notify = match parse_bool(&value) {
            Some(b) => b,
            None => false,
        };
        return ;
    }
    if crate::text::chars_eq(&key, &k_prompt) {
        if value.len() == 1 && value[0] == '|' {
            // Block scalar: gather lines indented deeper than `indent`.
            let mut block: Vec<Vec<char>> = Vec::new();
            let mut block_indent: Option<usize> = None;
            while *i < lines.len()
                invariant
                    *old(i) <= *i <= lines@.len(),
                    indent <= 1000000,
                decreases lines@.len() - *i,
            {
                let line = rtrim_chars(&lines[*i]);
                let trimmed_ws = trim_chars(&line);
                let ind = count_indent(&line);
                if trimmed_ws.len() > 0 {
                    if ind <= indent {
                        break ;
                    }
                    if block_indent.is_none() {
                        block_indent = Some(ind);
                    }
                }
                *i += 1;
                let cut = match block_indent {
                    Some(b) => b,
                    None => indent + 2,
                };
                let mut out_line: Vec<char> = Vec::new();
                if line.len() >= cut && cut <= line.len() {
                    crate::text::push_range(&mut out_line, &line, cut, line.len());
                }
                block.push(out_line);
            }
            let mut nl: Vec<char> = Vec::new();
            nl.push('\n');
            let joined = crate::text::join_chars(&block, &nl);
            let stripped = strip_trailing_newlines(&joined);
            current.prompt = chars_string(&stripped);
        } else {
            let v = strip_quotes(&kv_val);
            current.prompt = chars_string(&v);
        }
        return ;
    }
}

/// Parse the schedule file: a `schedules:` header followed by list
/// items at indent two, each with `key: value` fields at indent four.
///
/// Every schedule returned passes `validate_schedule`.
pub fn parse_cron_yaml(input: &str) -> (r: Result<CronConfig, Error>)
    ensures
        match r {
            Ok(cfg) => forall|k: int|
                0 <= k < cfg.schedules@.len() ==> spec_schedule_valid(&cfg.schedules@[k]),
            Err(e) => e is Config,
        },
{
    let ic = str_chars(input);
    let raw_lines = crate::text::split_chars(&ic, '\n');
    // Normalize Windows line endings.
    let mut lines: Vec<Vec<char>> = Vec::new();
    let mut li: usize = 0;
    while li < raw_lines.len()
        invariant
            li <= raw_lines@.len(),
        decreases raw_lines@.len() - li,
    {
        let l = &raw_lines[li];
        if l.len() > 0 && l[l.len() - 1] == '\r' {
            let mut t: Vec<char> = Vec::new();
            crate::text::push_range(&mut t, l, 0, l.len() - 1);
            lines.push(t);
        } else {
            let mut t: Vec<char> = Vec::new();
            crate::text::push_all(&mut t, l);
            lines.push(t);
        }
        li += 1;
    }

    let mut i: usize = 0;
    let mut in_schedules = false;
    let mut schedules: Vec<CronSchedule> = Vec::new();
    let k_schedules = str_chars("schedules:");
    proof {
        reveal_strlit("schedules:");
    }

    while i < lines.len()
        invariant
            i <= lines@.len(),
            k_schedules@ == "schedules:"@,
            forall|k: int| 0 <= k < schedules@.len() ==> spec_schedule_valid(&schedules@[k]),
        decreases lines@.len() - i,
    {
        let line = rtrim_chars(&lines[i]);
        let trimmed = trim_chars(&line);
        i += 1;

        if trimmed.len() == 0 || trimmed[0] == '#' {
            continue;
        }
        if !in_schedules {
            if crate::text::chars_eq(&trimmed, &k_schedules) {
                in_schedules = true;
            }
            continue;
        }
        let indent = count_indent(&line);
        if indent != 2 || trimmed[0] != '-' {
            continue;
        }
        // The text after the dash may already hold the first field.
        let mut after_dash: Vec<char> = Vec::new();
        let mut di: usize = 0;
        let n = trimmed.len();
        while di < n && trimmed[di] == '-'
            invariant
                di <= n,
                n == trimmed@.len(),
            decreases n - di,
        {
            di += 1;
        }
        while di < n && crate::text::is_space_char(trimmed[di])
            invariant
                di <= n,
                n == trimmed@.len(),
            decreases n - di,
        {
            di += 1;
        }
        crate::text::push_range(&mut after_dash, &trimmed, di, n);

        let mut current = CronSchedule {
            name: String::new(),
            cron: String::new(),
            prompt: String::new(),
            enabled: true,
            notify: false,
        };
        if after_dash.len() > 0 {
            parse_schedule_kv(&after_dash, &mut current, &mut i, &lines, 2);
        }
        // Fields of this item at indent four.
        let ghost ibase = i as int;
        while i < lines.len()
            invariant
                ibase <= i <= lines@.len(),
            decreases lines@.len() - i,
        {
            let line2 = rtrim_chars(&lines[i]);
            let trimmed2 = trim_chars(&line2);
            if trimmed2.len() == 0 || trimmed2[0] == '#' {
                i += 1;
                continue;
            }
            let indent2 = count_indent(&line2);
            if indent2 <= 2 {
                break ;
            }
            if indent2 != 4 {
                i += 1;
                continue;
            }
            i += 1;
            parse_schedule_kv(&trimmed2, &mut current, &mut i, &lines, indent2);
        }
        match validate_schedule(&current) {
            Ok(()) => {},
            Err(e) => {
                return Err(e);
            },
        }
        let ghost prev = schedules@;
        schedules.push(current);
        proof {
            assert(forall|k: int|
                0 <= k < prev.len() ==> schedules@[k] == prev[k] && spec_schedule_valid(
                    &schedules@[k],
                ));
            assert(spec_schedule_valid(&schedules@[schedules@.len() - 1]));
        }
    }

    Ok(CronConfig { schedules })
}

/// The schedule file's location under the working directory.
pub fn cron_config_path(working_dir: &str) -> (r: String)
    ensures
        r@ == working_dir@ + "/cron.yaml"@,
{
    let mut out: Vec<char> = str_chars(working_dir);
    let sfx = str_chars("/cron.yaml");
    crate::text::push_all(&mut out, &sfx);
    chars_string(&out)
}

} // verus!
