//! Finding the process that listens on a TCP port, and killing a process,
//! from what the host's `netstat`, `lsof`, `taskkill` and `kill` report.
use vstd::prelude::*;
use vstd::string::*;

use crate::command::{CommandLine, Platform};
use crate::text::{
    ascii_lower_code, chars_of, decimal, err_text, ends_with, eq_ignore_ascii_case, int_error_message, int_error_text,
    is_digit, is_space, lemma_decimal_digits, lemma_lines_step, lemma_parse_decimal,
    lemma_single_line, lemma_span_while_exact, lemma_words_cons, lemma_words_skip_space, line_end,
    lines, parse_u32, parse_u32_range, push_decimal, range_ends_with, range_eq_ignore_ascii_case,
    space, substring_owned, texts, trim, trim_bounds, trim_end, trim_start, word_spans, words,
    IntParseError,
};

verus! {

// ===================== what is asked of the host =====================

/// The command that lists the process listening on `port`:
/// `netstat -ano -p tcp` on Windows, `lsof -nP -iTCP:<port> -sTCP:LISTEN -t`
/// elsewhere.
pub fn pid_lookup_command(platform: Platform, port: u16) -> (cmd: CommandLine)
    ensures
        platform == Platform::Windows ==> cmd.program@ == "netstat"@ && cmd.arg_texts() == seq![
            "-ano"@,
            "-p"@,
            "tcp"@,
        ],
        platform != Platform::Windows ==> cmd.program@ == "lsof"@ && cmd.arg_texts() == seq![
            "-nP"@,
            "-iTCP:"@ + decimal(port as nat),
            "-sTCP:LISTEN"@,
            "-t"@,
        ],
{
    if platform == Platform::Windows {
        let args = vec![String::from_str("-ano"), String::from_str("-p"), String::from_str("tcp")];
        let cmd = CommandLine { program: String::from_str("netstat"), args };
        assert(cmd.arg_texts() =~= seq!["-ano"@, "-p"@, "tcp"@]);
        cmd
    } else {
        let mut port_arg = String::from_str("-iTCP:");
        push_decimal(&mut port_arg, port as u32);
        let args = vec![
            String::from_str("-nP"),
            port_arg,
            String::from_str("-sTCP:LISTEN"),
            String::from_str("-t"),
        ];
        let cmd = CommandLine { program: String::from_str("lsof"), args };
        assert(cmd.arg_texts() =~= seq![
            "-nP"@,
            "-iTCP:"@ + decimal(port as nat),
            "-sTCP:LISTEN"@,
            "-t"@,
        ]);
        cmd
    }
}

/// The command that kills process `pid` by force: `taskkill /PID <pid> /T /F`
/// (with its child processes) on Windows, `kill -9 <pid>` elsewhere.
pub fn kill_command(platform: Platform, pid: u32) -> (cmd: CommandLine)
    ensures
        platform == Platform::Windows ==> cmd.program@ == "taskkill"@ && cmd.arg_texts() == seq![
            "/PID"@,
            decimal(pid as nat),
            "/T"@,
            "/F"@,
        ],
        platform != Platform::Windows ==> cmd.program@ == "kill"@ && cmd.arg_texts() == seq![
            "-9"@,
            decimal(pid as nat),
        ],
{
    let mut pid_arg = String::new();
    push_decimal(&mut pid_arg, pid);
    assert(pid_arg@ =~= decimal(pid as nat));
    if platform == Platform::Windows {
        let args = vec![
            String::from_str("/PID"),
            pid_arg,
            String::from_str("/T"),
            String::from_str("/F"),
        ];
        let cmd = CommandLine { program: String::from_str("taskkill"), args };
        assert(cmd.arg_texts() =~= seq!["/PID"@, decimal(pid as nat), "/T"@, "/F"@]);
        cmd
    } else {
        let args = vec![String::from_str("-9"), pid_arg];
        let cmd = CommandLine { program: String::from_str("kill"), args };
        assert(cmd.arg_texts() =~= seq!["-9"@, decimal(pid as nat)]);
        cmd
    }
}

// ===================== reading netstat =====================

/// The address suffix `:<port>` that a local address on `port` ends with.
pub open spec fn port_suffix(port: u16) -> Seq<char> {
    ":"@ + decimal(port as nat)
}

/// A row of `netstat -ano` (Proto, Local Address, Foreign Address, State,
/// PID) for a TCP socket listening on `port`.
pub open spec fn is_tcp_listener(columns: Seq<Seq<char>>, port: u16) -> bool {
    &&& columns.len() >= 5
    &&& eq_ignore_ascii_case(columns[0], "TCP"@)
    &&& ends_with(columns[1], port_suffix(port))
    &&& eq_ignore_ascii_case(columns[3], "LISTENING"@)
}

/// The PID column of the first row among `rows` that listens on `port`.
pub open spec fn first_listener_pid(rows: Seq<Seq<char>>, port: u16) -> Option<Seq<char>>
    decreases rows.len(),
{
    if rows.len() == 0 {
        None
    } else if is_tcp_listener(words(rows[0]), port) {
        Some(words(rows[0])[4])
    } else {
        first_listener_pid(rows.drop_first(), port)
    }
}

pub open spec fn no_listener_message(port: u16) -> Seq<char> {
    "No process is listening on port "@ + decimal(port as nat) + "."@
}

pub open spec fn invalid_pid_message(pid: Seq<char>, e: IntParseError) -> Seq<char> {
    "Invalid PID in netstat output ("@ + pid + "): "@ + int_error_text(e)
}

/// The PID that `netstat -ano -p tcp` output names as listening on `port`:
/// that of the first listening TCP row, which must be a number.
pub open spec fn netstat_lookup(output: Seq<char>, port: u16) -> Result<u32, Seq<char>> {
    match first_listener_pid(lines(output), port) {
        None => Err(no_listener_message(port)),
        Some(pid) => match parse_u32(pid) {
            Ok(v) => Ok(v),
            Err(e) => Err(invalid_pid_message(pid, e)),
        },
    }
}

proof fn lemma_first_listener_pid_step(line: Seq<char>, rest: Seq<Seq<char>>, port: u16)
    ensures
        first_listener_pid(seq![line] + rest, port) == (if is_tcp_listener(words(line), port) {
            Some(words(line)[4])
        } else {
            first_listener_pid(rest, port)
        }),
{
    let all = seq![line] + rest;
    assert(all[0] == line);
    assert(all.drop_first() =~= rest);
}

fn no_listener_error(port: u16) -> (msg: String)
    ensures
        msg@ == no_listener_message(port),
{
    let mut msg = String::from_str("No process is listening on port ");
    push_decimal(&mut msg, port as u32);
    msg.append(".");
    msg
}

/// Reads the output of `netstat -ano -p tcp` for the process listening on
/// `port`.
pub fn netstat_pid(output: &str, port: u16) -> (r: Result<u32, String>)
    ensures
        err_text(r) == netstat_lookup(output@, port),
{
    let v = chars_of(output);
    let tcp = chars_of("TCP");
    let listening = chars_of("LISTENING");
    let mut suffix_text = String::from_str(":");
    push_decimal(&mut suffix_text, port as u32);
    let suffix = chars_of(suffix_text.as_str());
    let n = v.len();
    let mut pos: usize = 0;
    assert(v@.skip(0) =~= v@);
    while pos < n
        invariant
            pos <= n == v.len(),
            v@ == output@,
            tcp@ == "TCP"@,
            listening@ == "LISTENING"@,
            suffix@ == port_suffix(port),
            first_listener_pid(lines(v@), port) == first_listener_pid(
                lines(v@.skip(pos as int)),
                port,
            ),
        decreases n - pos,
    {
        let end = line_end(&v, pos);
        proof {
            lemma_lines_step(v@, pos as int, end as int);
        }
        let ghost line = v@.subrange(pos as int, end as int);
        let ghost rest = if end < n {
            lines(v@.skip(end + 1))
        } else {
            Seq::<Seq<char>>::empty()
        };
        proof {
            lemma_first_listener_pid_step(line, rest, port);
        }
        let spans = word_spans(&v, pos, end);
        if spans.len() >= 5 && range_eq_ignore_ascii_case(&v, spans[0].0, spans[0].1, &tcp)
            && range_ends_with(&v, spans[1].0, spans[1].1, &suffix)
            && range_eq_ignore_ascii_case(&v, spans[3].0, spans[3].1, &listening) {
            let (a, b) = spans[4];
            assert(is_tcp_listener(words(line), port));
            match parse_u32_range(&v, a, b) {
                Ok(pid) => {
                    return Ok(pid);
                },
                Err(e) => {
                    let mut msg = String::from_str("Invalid PID in netstat output (");
                    let pid_text = substring_owned(output, a, b);
                    msg.append(pid_text.as_str());
                    msg.append("): ");
                    msg.append(int_error_message(e));
                    return Err(msg);
                },
            }
        }
        assert(!is_tcp_listener(words(line), port));
        if end == n {
            assert(v@.skip(n as int) =~= Seq::<char>::empty());
            pos = n;
        } else {
            pos = end + 1;
        }
    }
    assert(v@.skip(pos as int) =~= Seq::<char>::empty());
    Err(no_listener_error(port))
}

// ===================== reading lsof =====================

/// The first of `rows` that, trimmed, reads as a `u32`.
pub open spec fn first_pid_row(rows: Seq<Seq<char>>) -> Option<u32>
    decreases rows.len(),
{
    if rows.len() == 0 {
        None
    } else {
        match parse_u32(trim(rows[0])) {
            Ok(v) => Some(v),
            Err(_) => first_pid_row(rows.drop_first()),
        }
    }
}

/// The PID that `lsof -t` output names: the first line that is a number.
pub open spec fn lsof_lookup(output: Seq<char>, port: u16) -> Result<u32, Seq<char>> {
    match first_pid_row(lines(output)) {
        Some(v) => Ok(v),
        None => Err(no_listener_message(port)),
    }
}

proof fn lemma_first_pid_row_step(line: Seq<char>, rest: Seq<Seq<char>>)
    ensures
        first_pid_row(seq![line] + rest) == (match parse_u32(trim(line)) {
            Ok(v) => Some(v),
            Err(_) => first_pid_row(rest),
        }),
{
    let all = seq![line] + rest;
    assert(all[0] == line);
    assert(all.drop_first() =~= rest);
}

/// Reads the output of `lsof -nP -iTCP:<port> -sTCP:LISTEN -t` for the
/// process listening on `port`.
pub fn lsof_pid(output: &str, port: u16) -> (r: Result<u32, String>)
    ensures
        err_text(r) == lsof_lookup(output@, port),
{
    let v = chars_of(output);
    let n = v.len();
    let mut pos: usize = 0;
    assert(v@.skip(0) =~= v@);
    while pos < n
        invariant
            pos <= n == v.len(),
            v@ == output@,
            first_pid_row(lines(v@)) == first_pid_row(lines(v@.skip(pos as int))),
        decreases n - pos,
    {
        let end = line_end(&v, pos);
        proof {
            lemma_lines_step(v@, pos as int, end as int);
        }
        let ghost line = v@.subrange(pos as int, end as int);
        let ghost rest = if end < n {
            lines(v@.skip(end + 1))
        } else {
            Seq::<Seq<char>>::empty()
        };
        proof {
            lemma_first_pid_row_step(line, rest);
        }
        let (a, b) = trim_bounds(&v, pos, end);
        match parse_u32_range(&v, a, b) {
            Ok(pid) => {
                return Ok(pid);
            },
            Err(_) => {},
        }
        if end == n {
            assert(v@.skip(n as int) =~= Seq::<char>::empty());
            pos = n;
        } else {
            pos = end + 1;
        }
    }
    assert(v@.skip(pos as int) =~= Seq::<char>::empty());
    Err(no_listener_error(port))
}

// ===================== reading what the tools print =====================

/// A text of printed characters: not empty, no whitespace in it.
pub open spec fn is_token(t: Seq<char>) -> bool {
    t.len() > 0 && forall|k: int| 0 <= k < t.len() ==> !is_space(#[trigger] t[k])
}

/// `n` blanks.
pub open spec fn blanks(n: nat) -> Seq<char> {
    Seq::new(n, |i: int| ' ')
}

/// A `netstat -ano` row for a TCP socket listening at `local`, held by
/// process `pid`, with its columns laid out by runs of `widths` blanks.
pub open spec fn netstat_listening_row(
    widths: (nat, nat, nat, nat, nat),
    local: Seq<char>,
    foreign: Seq<char>,
    pid: u32,
) -> Seq<char> {
    blanks(widths.0) + "TCP"@ + blanks(widths.1) + local + blanks(widths.2) + foreign + blanks(
        widths.3,
    ) + "LISTENING"@ + blanks(widths.4) + decimal(pid as nat)
}

/// No character of `t` is a line feed.
pub open spec fn one_line(t: Seq<char>) -> bool {
    forall|k: int| 0 <= k < t.len() ==> #[trigger] t[k] != '\n'
}

proof fn lemma_token_one_line(t: Seq<char>)
    requires
        forall|k: int| 0 <= k < t.len() ==> !is_space(#[trigger] t[k]),
    ensures
        one_line(t),
{
    assert forall|k: int| 0 <= k < t.len() implies #[trigger] t[k] != '\n' by {
        assert(!is_space(t[k]));
    }
}

proof fn lemma_one_line_concat(a: Seq<char>, b: Seq<char>)
    requires
        one_line(a),
        one_line(b),
    ensures
        one_line(a + b),
{
    assert forall|k: int| 0 <= k < (a + b).len() implies #[trigger] (a + b)[k] != '\n' by {
        if k < a.len() {
            assert((a + b)[k] == a[k]);
        } else {
            assert((a + b)[k] == b[k - a.len()]);
        }
    }
}

proof fn lemma_decimal_is_token(n: nat)
    ensures
        is_token(decimal(n)),
{
    lemma_decimal_digits(n);
    assert forall|k: int| 0 <= k < decimal(n).len() implies !is_space(#[trigger] decimal(n)[k]) by {
        assert(is_digit(decimal(n)[k]));
    }
}

/// The words of `blanks + word + rest`.
proof fn lemma_words_blank_word(n: nat, w: Seq<char>, rest: Seq<char>)
    requires
        is_token(w),
        rest.len() == 0 || is_space(rest[0]),
    ensures
        words(blanks(n) + w + rest) == seq![w] + words(rest),
    decreases n,
{
    if n == 0 {
        assert(blanks(n) + w + rest =~= w + rest);
        lemma_words_cons(w, rest);
    } else {
        let shorter = blanks((n - 1) as nat);
        assert(blanks(n) + w + rest =~= seq![' '] + (shorter + w + rest));
        lemma_words_skip_space(' ', shorter + w + rest);
        lemma_words_blank_word((n - 1) as nat, w, rest);
    }
}

/// When netstat lists one TCP socket listening on `port`, held by `pid`,
/// the PID found for `port` is `pid`, however wide its columns are.
pub proof fn lemma_netstat_reads_listener(
    widths: (nat, nat, nat, nat, nat),
    local: Seq<char>,
    foreign: Seq<char>,
    pid: u32,
    port: u16,
)
    requires
        widths.1 > 0 && widths.2 > 0 && widths.3 > 0 && widths.4 > 0,
        is_token(local),
        is_token(foreign),
        ends_with(local, port_suffix(port)),
    ensures
        netstat_lookup(netstat_listening_row(widths, local, foreign, pid).push('\n'), port) == Ok::<
            u32,
            Seq<char>,
        >(pid),
{
    reveal_strlit("TCP");
    reveal_strlit("LISTENING");
    let p = decimal(pid as nat);
    lemma_decimal_is_token(pid as nat);
    let tcp = "TCP"@;
    let listening = "LISTENING"@;
    let e = Seq::<char>::empty();
    let r5 = blanks(widths.4) + p + e;
    let r4 = blanks(widths.3) + listening + r5;
    let r3 = blanks(widths.2) + foreign + r4;
    let r2 = blanks(widths.1) + local + r3;
    let r1 = blanks(widths.0) + tcp + r2;
    let row = netstat_listening_row(widths, local, foreign, pid);
    assert(row =~= r1);
    assert(is_token(tcp));
    assert(is_token(listening));
    assert(r5[0] == ' ');
    assert(r4[0] == ' ');
    assert(r3[0] == ' ');
    assert(r2[0] == ' ');
    lemma_words_blank_word(widths.4, p, e);
    assert(words(e) == Seq::<Seq<char>>::empty());
    lemma_words_blank_word(widths.3, listening, r5);
    lemma_words_blank_word(widths.2, foreign, r4);
    lemma_words_blank_word(widths.1, local, r3);
    lemma_words_blank_word(widths.0, tcp, r2);
    assert(words(row) =~= seq![tcp, local, foreign, listening, p]);
    // no line feed anywhere in the row
    lemma_token_one_line(tcp);
    lemma_token_one_line(local);
    lemma_token_one_line(foreign);
    lemma_token_one_line(listening);
    lemma_token_one_line(p);
    assert(one_line(blanks(widths.0)));
    assert(one_line(blanks(widths.1)));
    assert(one_line(blanks(widths.2)));
    assert(one_line(blanks(widths.3)));
    assert(one_line(blanks(widths.4)));
    assert(one_line(e));
    lemma_one_line_concat(p, e);
    lemma_one_line_concat(blanks(widths.4), p + e);
    lemma_one_line_concat(listening, r5);
    lemma_one_line_concat(blanks(widths.3), listening + r5);
    lemma_one_line_concat(foreign, r4);
    lemma_one_line_concat(blanks(widths.2), foreign + r4);
    lemma_one_line_concat(local, r3);
    lemma_one_line_concat(blanks(widths.1), local + r3);
    lemma_one_line_concat(tcp, r2);
    lemma_one_line_concat(blanks(widths.0), tcp + r2);
    assert(blanks(widths.4) + p + e == blanks(widths.4) + (p + e));
    assert(r4 =~= blanks(widths.3) + (listening + r5));
    assert(r3 =~= blanks(widths.2) + (foreign + r4));
    assert(r2 =~= blanks(widths.1) + (local + r3));
    assert(r1 =~= blanks(widths.0) + (tcp + r2));
    lemma_single_line(row);
    let rows = lines(row.push('\n'));
    assert(rows.drop_first() =~= Seq::<Seq<char>>::empty());
    assert(is_tcp_listener(words(row), port));
    lemma_parse_decimal(pid);
}

/// When lsof prints one PID, that is the PID found.
pub proof fn lemma_lsof_reads_printed_pid(pid: u32, port: u16)
    ensures
        lsof_lookup(decimal(pid as nat).push('\n'), port) == Ok::<u32, Seq<char>>(pid),
{
    let p = decimal(pid as nat);
    lemma_decimal_is_token(pid as nat);
    lemma_token_one_line(p);
    lemma_single_line(p);
    assert(!(space())(p[0]));
    lemma_span_while_exact(p, space(), 0);
    assert(p.skip(0) =~= p);
    assert(trim_start(p) == p);
    assert(trim_end(p) == p);
    lemma_parse_decimal(pid);
    let rows = lines(p.push('\n'));
    assert(rows.drop_first() =~= Seq::<Seq<char>>::empty());
}

// ===================== finding and killing =====================

pub open spec fn inspect_failure_message(err: Seq<char>) -> Seq<char> {
    "Failed to inspect network: "@ + err
}

/// What finding the process on `port` gives, from the outcome of running
/// `pid_lookup_command`: its standard output, or why it could not run.
pub open spec fn pid_lookup(
    platform: Platform,
    port: u16,
    inspection: Result<Seq<char>, Seq<char>>,
) -> Result<u32, Seq<char>> {
    match inspection {
        Err(e) => Err(inspect_failure_message(e)),
        Ok(output) => if platform == Platform::Windows {
            netstat_lookup(output, port)
        } else {
            lsof_lookup(output, port)
        },
    }
}

/// The PID of the process listening on `port`, from the outcome of running
/// `pid_lookup_command(platform, port)`.
pub fn find_pid_by_port(platform: Platform, port: u16, inspection: Result<String, String>) -> (r:
    Result<u32, String>)
    ensures
        err_text(r) == pid_lookup(platform, port, texts(inspection)),
{
    match inspection {
        Err(e) => {
            let mut msg = String::from_str("Failed to inspect network: ");
            msg.append(e.as_str());
            Err(msg)
        },
        Ok(output) => {
            if platform == Platform::Windows {
                netstat_pid(output.as_str(), port)
            } else {
                lsof_pid(output.as_str(), port)
            }
        },
    }
}

pub open spec fn kill_failure_message(pid: u32, err: Seq<char>) -> Seq<char> {
    "Failed to kill DSH service (PID "@ + decimal(pid as nat) + "): "@ + err
}

pub open spec fn kill_refused_message(platform: Platform, pid: u32) -> Seq<char> {
    (if platform == Platform::Windows {
        "taskkill"@
    } else {
        "kill"@
    }) + " failed to terminate DSH service (PID "@ + decimal(pid as nat) + ")."@
}

/// What killing `pid` gives, from the outcome of running `kill_command`:
/// whether it exited successfully, or why it could not run.
pub open spec fn kill_outcome(platform: Platform, pid: u32, run: Result<bool, Seq<char>>) -> Result<
    (),
    Seq<char>,
> {
    match run {
        Err(e) => Err(kill_failure_message(pid, e)),
        Ok(true) => Ok(()),
        Ok(false) => Err(kill_refused_message(platform, pid)),
    }
}

/// The result of killing `pid`, from the outcome of running
/// `kill_command(platform, pid)`.
pub fn kill_process_by_pid(platform: Platform, pid: u32, run: Result<bool, String>) -> (r: Result<
    (),
    String,
>)
    ensures
        err_text(r) == kill_outcome(platform, pid, err_text(run)),
        r is Ok <==> run matches Ok(true),
{
    match run {
        Err(e) => {
            let mut msg = String::from_str("Failed to kill DSH service (PID ");
            push_decimal(&mut msg, pid);
            msg.append("): ");
            msg.append(e.as_str());
            Err(msg)
        },
        Ok(true) => Ok(()),
        Ok(false) => {
            let mut msg = if platform == Platform::Windows {
                String::from_str("taskkill")
            } else {
                String::from_str("kill")
            };
            msg.append(" failed to terminate DSH service (PID ");
            push_decimal(&mut msg, pid);
            msg.append(").");
            Err(msg)
        },
    }
}

// ===================== laws of the lookup =====================

/// The codes of `s` after ASCII lower-casing, character by character.
pub open spec fn folded(s: Seq<char>) -> Seq<u32> {
    s.map_values(|c: char| ascii_lower_code(c))
}

/// The row, split at whitespace, reads: `TCP` in any ASCII case, a local
/// address that ends with `:` and the port's digits, anything, `LISTENING` in
/// any ASCII case, then at least the PID column.
pub open spec fn row_listens_on(row: Seq<char>, port: u16) -> bool {
    let w = words(row);
    let tail = seq![':'] + decimal(port as nat);
    &&& w.len() >= 5
    &&& folded(w[0]) == folded(seq!['T', 'C', 'P'])
    &&& w[1].len() >= tail.len()
    &&& w[1].subrange(w[1].len() - tail.len(), w[1].len() as int) == tail
    &&& folded(w[3]) == folded(seq!['L', 'I', 'S', 'T', 'E', 'N', 'I', 'N', 'G'])
}

proof fn lemma_eq_ignore_case_folded(a: Seq<char>, b: Seq<char>)
    ensures
        eq_ignore_ascii_case(a, b) <==> folded(a) == folded(b),
{
    if eq_ignore_ascii_case(a, b) {
        assert(folded(a) =~= folded(b));
    }
    if folded(a) == folded(b) {
        assert(a.len() == folded(a).len());
        assert(b.len() == folded(b).len());
        assert forall|k: int| 0 <= k < a.len() implies ascii_lower_code(a[k]) == ascii_lower_code(
            b[k],
        ) by {
            assert(folded(a)[k] == ascii_lower_code(a[k]));
            assert(folded(b)[k] == ascii_lower_code(b[k]));
        }
    }
}

proof fn lemma_row_listens_on(row: Seq<char>, port: u16)
    ensures
        is_tcp_listener(words(row), port) <==> row_listens_on(row, port),
{
    reveal_strlit("TCP");
    reveal_strlit("LISTENING");
    reveal_strlit(":");
    let w = words(row);
    let tail = seq![':'] + decimal(port as nat);
    assert(port_suffix(port) =~= tail);
    if w.len() >= 5 {
        lemma_eq_ignore_case_folded(w[0], "TCP"@);
        lemma_eq_ignore_case_folded(w[3], "LISTENING"@);
        assert("TCP"@ =~= seq!['T', 'C', 'P']);
        assert("LISTENING"@ =~= seq!['L', 'I', 'S', 'T', 'E', 'N', 'I', 'N', 'G']);
        if w[1].len() >= tail.len() {
            assert(w[1].skip(w[1].len() - tail.len()) =~= w[1].subrange(
                w[1].len() - tail.len(),
                w[1].len() as int,
            ));
        }
    }
}

proof fn lemma_first_listener_found(rows: Seq<Seq<char>>, port: u16)
    ensures
        first_listener_pid(rows, port) matches Some(pid) ==> exists|k: int|
            0 <= k < rows.len() && is_tcp_listener(words(#[trigger] rows[k]), port) && words(
                rows[k],
            )[4] == pid && forall|j: int| 0 <= j < k ==> !is_tcp_listener(words(rows[j]), port),
    decreases rows.len(),
{
    if rows.len() > 0 && !is_tcp_listener(words(rows[0]), port) {
        let rest = rows.drop_first();
        lemma_first_listener_found(rest, port);
        if let Some(pid) = first_listener_pid(rows, port) {
            let k = choose|k: int|
                0 <= k < rest.len() && is_tcp_listener(words(#[trigger] rest[k]), port) && words(
                    rest[k],
                )[4] == pid && forall|j: int| 0 <= j < k ==> !is_tcp_listener(words(rest[j]), port);
            assert(rows[k + 1] == rest[k]);
            assert forall|j: int| 0 <= j < k + 1 implies !is_tcp_listener(words(rows[j]), port) by {
                if j > 0 {
                    assert(rows[j] == rest[j - 1]);
                }
            }
        }
    } else if rows.len() > 0 {
        assert(is_tcp_listener(words(rows[0]), port));
    }
}

proof fn lemma_first_listener_at(rows: Seq<Seq<char>>, port: u16, k: int)
    requires
        0 <= k < rows.len(),
        is_tcp_listener(words(rows[k]), port),
        forall|j: int| 0 <= j < k ==> !is_tcp_listener(words(#[trigger] rows[j]), port),
    ensures
        first_listener_pid(rows, port) == Some(words(rows[k])[4]),
    decreases k,
{
    if k > 0 {
        let rest = rows.drop_first();
        assert(!is_tcp_listener(words(rows[0]), port));
        assert forall|j: int| 0 <= j < k - 1 implies !is_tcp_listener(
            words(#[trigger] rest[j]),
            port,
        ) by {
            assert(rest[j] == rows[j + 1]);
        }
        assert(rest[k - 1] == rows[k]);
        lemma_first_listener_at(rest, port, k - 1);
    }
}

proof fn lemma_no_listener(rows: Seq<Seq<char>>, port: u16)
    requires
        forall|j: int| 0 <= j < rows.len() ==> !is_tcp_listener(words(#[trigger] rows[j]), port),
    ensures
        first_listener_pid(rows, port) is None,
    decreases rows.len(),
{
    if rows.len() > 0 {
        let rest = rows.drop_first();
        assert(!is_tcp_listener(words(rows[0]), port));
        assert forall|j: int| 0 <= j < rest.len() implies !is_tcp_listener(
            words(#[trigger] rest[j]),
            port,
        ) by {
            assert(rest[j] == rows[j + 1]);
        }
        lemma_no_listener(rest, port);
    }
}

/// What the netstat lookup for `port` answers, in terms of the rows of the
/// output: a PID only from the first row that lists a TCP socket in state
/// `LISTENING` whose local address ends with `:port`, namely the number in
/// its PID column; an error when no row does.
pub proof fn lemma_netstat_lookup_rows(output: Seq<char>, port: u16)
    ensures
        netstat_lookup(output, port) matches Ok(v) ==> exists|k: int|
            0 <= k < lines(output).len() && row_listens_on(#[trigger] lines(output)[k], port)
                && parse_u32(words(lines(output)[k])[4]) == Ok::<u32, IntParseError>(v)
                && forall|j: int| 0 <= j < k ==> !row_listens_on(lines(output)[j], port),
        forall|k: int|
            0 <= k < lines(output).len() && row_listens_on(#[trigger] lines(output)[k], port)
                && (forall|j: int| 0 <= j < k ==> !row_listens_on(lines(output)[j], port))
                ==> netstat_lookup(output, port) == (match parse_u32(words(lines(output)[k])[4]) {
                Ok(v) => Ok::<u32, Seq<char>>(v),
                Err(e) => Err(invalid_pid_message(words(lines(output)[k])[4], e)),
            }),
        (forall|k: int| 0 <= k < lines(output).len() ==> !row_listens_on(
            #[trigger] lines(output)[k],
            port,
        )) ==> netstat_lookup(output, port) is Err,
{
    let rows = lines(output);
    assert forall|k: int| 0 <= k < rows.len() implies (is_tcp_listener(
        words(#[trigger] rows[k]),
        port,
    ) <==> row_listens_on(rows[k], port)) by {
        lemma_row_listens_on(rows[k], port);
    }
    lemma_first_listener_found(rows, port);
    assert forall|k: int|
        0 <= k < rows.len() && row_listens_on(#[trigger] rows[k], port) && (forall|j: int|
            0 <= j < k ==> !row_listens_on(rows[j], port)) implies netstat_lookup(output, port)
        == (match parse_u32(words(rows[k])[4]) {
        Ok(v) => Ok::<u32, Seq<char>>(v),
        Err(e) => Err(invalid_pid_message(words(rows[k])[4], e)),
    }) by {
        assert forall|j: int| 0 <= j < k implies !is_tcp_listener(words(#[trigger] rows[j]), port) by {
            lemma_row_listens_on(rows[j], port);
        }
        lemma_first_listener_at(rows, port, k);
    }
    if forall|k: int| 0 <= k < rows.len() ==> !row_listens_on(#[trigger] rows[k], port) {
        lemma_no_listener(rows, port);
    }
}

/// The lookup is for the port asked. On Windows a PID comes only from the
/// first `LISTENING` TCP row whose local address ends with `:port`, and that
/// row, when there is one, decides the answer. Elsewhere a PID comes only
/// from the first line of the `lsof` output that, trimmed, is a number, and
/// there is a PID whenever such a line exists. When the
/// host could not be asked, there is no PID.
pub proof fn lemma_pid_lookup_answers_port(
    platform: Platform,
    port: u16,
    inspection: Result<Seq<char>, Seq<char>>,
)
    ensures
        inspection is Err ==> pid_lookup(platform, port, inspection) is Err,
        platform == Platform::Windows ==> (inspection matches Ok(out) ==> (pid_lookup(
            platform,
            port,
            inspection,
        ) matches Ok(v) ==> exists|k: int|
            0 <= k < lines(out).len() && row_listens_on(#[trigger] lines(out)[k], port) && parse_u32(
                words(lines(out)[k])[4],
            ) == Ok::<u32, IntParseError>(v))),
        platform == Platform::Windows ==> (inspection matches Ok(out) ==> forall|k: int|
            0 <= k < lines(out).len() && row_listens_on(#[trigger] lines(out)[k], port)
                && (forall|j: int| 0 <= j < k ==> !row_listens_on(lines(out)[j], port))
                && parse_u32(words(lines(out)[k])[4]) is Ok ==> pid_lookup(platform, port, inspection)
                == Ok::<u32, Seq<char>>(parse_u32(words(lines(out)[k])[4])->Ok_0)),
        platform != Platform::Windows ==> (inspection matches Ok(out) ==> (pid_lookup(
            platform,
            port,
            inspection,
        ) matches Ok(v) ==> exists|k: int|
            0 <= k < lines(out).len() && parse_u32(trim(#[trigger] lines(out)[k])) == Ok::<
                u32,
                IntParseError,
            >(v) && forall|j: int| 0 <= j < k ==> parse_u32(trim(lines(out)[j])) is Err)),
        platform != Platform::Windows ==> (inspection matches Ok(out) ==> ((exists|k: int|
            0 <= k < lines(out).len() && parse_u32(trim(#[trigger] lines(out)[k])) is Ok)
            ==> pid_lookup(platform, port, inspection) is Ok)),
{
    if let Ok(out) = inspection {
        if platform == Platform::Windows {
            lemma_netstat_lookup_rows(out, port);
        } else {
            lemma_first_pid_row_found(lines(out));
        }
    }
}

proof fn lemma_first_pid_row_found(rows: Seq<Seq<char>>)
    ensures
        first_pid_row(rows) matches Some(v) ==> exists|k: int|
            0 <= k < rows.len() && parse_u32(trim(#[trigger] rows[k])) == Ok::<u32, IntParseError>(
                v,
            ) && forall|j: int| 0 <= j < k ==> parse_u32(trim(rows[j])) is Err,
        (exists|k: int| 0 <= k < rows.len() && parse_u32(trim(#[trigger] rows[k])) is Ok)
            ==> first_pid_row(rows) is Some,
    decreases rows.len(),
{
    if rows.len() > 0 {
        let rest = rows.drop_first();
        lemma_first_pid_row_found(rest);
        if parse_u32(trim(rows[0])) is Err {
            if let Some(v) = first_pid_row(rows) {
                let k = choose|k: int|
                    0 <= k < rest.len() && parse_u32(trim(#[trigger] rest[k])) == Ok::<
                        u32,
                        IntParseError,
                    >(v) && forall|j: int| 0 <= j < k ==> parse_u32(trim(rest[j])) is Err;
                assert(rows[k + 1] == rest[k]);
                assert forall|j: int| 0 <= j < k + 1 implies parse_u32(trim(rows[j])) is Err by {
                    if j > 0 {
                        assert(rows[j] == rest[j - 1]);
                    }
                }
            }
            if exists|k: int| 0 <= k < rows.len() && parse_u32(trim(#[trigger] rows[k])) is Ok {
                let k = choose|k: int|
                    0 <= k < rows.len() && parse_u32(trim(#[trigger] rows[k])) is Ok;
                assert(k > 0);
                assert(rest[k - 1] == rows[k]);
            }
        }
    }
}

// ===================== laws of killing =====================

/// Killing succeeds exactly when the kill command ran and exited
/// successfully, on every platform; its failure is never reported as success.
pub proof fn lemma_kill_ok_iff_command_succeeded(
    platform: Platform,
    pid: u32,
    run: Result<bool, Seq<char>>,
)
    ensures
        kill_outcome(platform, pid, run) is Ok <==> run == Ok::<bool, Seq<char>>(true),
        run == Ok::<bool, Seq<char>>(false) ==> kill_outcome(platform, pid, run) is Err,
        run is Err ==> kill_outcome(platform, pid, run) is Err,
{
}

} // verus!
