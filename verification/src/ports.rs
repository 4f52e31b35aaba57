//! Which TCP ports each process listens on, read from the output of a
//! socket-listing tool: a primary format, and a second one to fall back on.

use crate::paint::{escape_char, paint_dim, paint_green, paint_red, tinted, Tint};
use crate::text::{
    after_last_colon, chars_of, decimal_digits, digit_run_end, first_occurrence, is_digit, join,
    leading_digits, lemma_decimal_round_trip, lines, parse_i64, parse_u16, push_decimal,
    slice_of, spec_parse_i64, spec_parse_u16, split_lines, split_whitespace,
    take_after_last_colon, texts, tokens, views,
};
use std::collections::HashMap;
use vstd::prelude::*;

verus! {

broadcast use vstd::std_specs::hash::group_hash_axioms;

/// The two listing formats that are understood.
#[derive(Clone, Copy, Debug, PartialEq, Eq, Structural)]
pub enum ListingFormat {
    /// Nine or more columns: the PID is the second, the socket name the ninth.
    Primary,
    /// Five or more columns: the local address is the fourth, the owning
    /// process is named in the last.
    Fallback,
}

/// The port that a socket name or a local address ends with: what follows
/// its last colon, read as a port number.
pub open spec fn spec_extract_port(name: Seq<char>) -> Option<u16> {
    spec_parse_u16(after_last_colon(name))
}

/// The text that introduces a PID in the process column of the fallback
/// format.
pub open spec fn pid_marker() -> Seq<char> {
    seq!['p', 'i', 'd', '=']
}

/// The PID named by a process column: the digits that follow the first
/// `pid=`, read as a number.
pub open spec fn spec_extract_pid(field: Seq<char>) -> Option<i64> {
    match first_occurrence(field, pid_marker(), 0) {
        Some(at) => spec_parse_i64(leading_digits(field.skip(at + 4))),
        None => None,
    }
}

/// The PID and port that a line of the primary format names, if it names
/// any.
pub open spec fn lsof_entry(line: Seq<char>) -> Option<(i64, u16)> {
    let parts = tokens(line);
    if parts.len() < 9 {
        None
    } else {
        match (spec_parse_i64(parts[1]), spec_extract_port(parts[8])) {
            (Some(pid), Some(port)) => Some((pid, port)),
            _ => None,
        }
    }
}

/// The PID and port that a line of the fallback format names, if it names
/// any.
pub open spec fn ss_entry(line: Seq<char>) -> Option<(i64, u16)> {
    let parts = tokens(line);
    if parts.len() < 5 {
        None
    } else {
        match (spec_extract_port(parts[3]), spec_extract_pid(parts.last())) {
            (Some(port), Some(pid)) => Some((pid, port)),
            _ => None,
        }
    }
}

/// The PID and port that a line names, read in the given format.
pub open spec fn line_entry(format: ListingFormat, line: Seq<char>) -> Option<(i64, u16)> {
    match format {
        ListingFormat::Primary => lsof_entry(line),
        ListingFormat::Fallback => ss_entry(line),
    }
}

/// The entries that the lines `ls` name, in line order; lines that name
/// none are passed over.
pub open spec fn entries(format: ListingFormat, ls: Seq<Seq<char>>) -> Seq<(i64, u16)>
    decreases ls.len(),
{
    if ls.len() == 0 {
        Seq::empty()
    } else {
        let before = entries(format, ls.drop_last());
        match line_entry(format, ls.last()) {
            Some(e) => before.push(e),
            None => before,
        }
    }
}

/// The ports that `es` names for `pid`, in order, repeats included.
pub open spec fn ports_for(es: Seq<(i64, u16)>, pid: i64) -> Seq<u16>
    decreases es.len(),
{
    if es.len() == 0 {
        Seq::empty()
    } else {
        let before = ports_for(es.drop_last(), pid);
        if es.last().0 == pid {
            before.push(es.last().1)
        } else {
            before
        }
    }
}

/// `s` with `x` added at the end unless it is already there.
pub open spec fn push_unique(s: Seq<u16>, x: u16) -> Seq<u16> {
    if s.contains(x) {
        s
    } else {
        s.push(x)
    }
}

/// `s` without repeats, each value where it first occurs.
pub open spec fn first_seen(s: Seq<u16>) -> Seq<u16>
    decreases s.len(),
{
    if s.len() == 0 {
        Seq::empty()
    } else {
        push_unique(first_seen(s.drop_last()), s.last())
    }
}

/// The port table that the entries `es` make: a PID is in it when an entry
/// names it, with its ports in first-seen order and without repeats.
pub open spec fn table_of(es: Seq<(i64, u16)>) -> Map<i64, Seq<u16>> {
    Map::new(|pid: i64| ports_for(es, pid).len() > 0, |pid: i64| first_seen(ports_for(es, pid)))
}

/// The port table that a tool's output gives. Its first line is the column
/// header and is not read.
pub open spec fn listing_table(format: ListingFormat, output: Seq<char>) -> Map<i64, Seq<u16>> {
    table_of(entries(format, lines(output).drop_first()))
}

/// A port table as a map from PID to port sequence.
pub open spec fn port_lists(m: Map<i64, Vec<u16>>) -> Map<i64, Seq<u16>> {
    m.map_values(|v: Vec<u16>| v@)
}

/// The ports listed for `pid`, none when the table does not know it.
pub open spec fn ports_of(table: Map<i64, Seq<u16>>, pid: i64) -> Seq<u16> {
    if table.contains_key(pid) {
        table[pid]
    } else {
        Seq::empty()
    }
}

/// `x` occurs in `s` at a place before which `y` does not occur.
pub open spec fn seen_before(s: Seq<u16>, x: u16, y: u16) -> bool {
    exists|a: int| 0 <= a < s.len() && s[a] == x && !s.take(a + 1).contains(y)
}

/// `first_seen(s)` has the members of `s` and no repeats, and of two of its
/// members the earlier one occurs in `s` before the later one ever does.
pub proof fn lemma_first_seen(s: Seq<u16>)
    ensures
        forall|x: u16| first_seen(s).contains(x) <==> s.contains(x),
        first_seen(s).no_duplicates(),
        first_seen(s).len() <= s.len(),
        forall|i: int, j: int|
            0 <= i < j < first_seen(s).len() ==> seen_before(
                s,
                #[trigger] first_seen(s)[i],
                #[trigger] first_seen(s)[j],
            ),
    decreases s.len(),
{
    let r = first_seen(s);
    if s.len() > 0 {
        let front = s.drop_last();
        let x = s.last();
        lemma_first_seen(front);
        let f = first_seen(front);
        assert forall|y: u16| r.contains(y) <==> s.contains(y) by {
            if s.contains(y) {
                let k = s.index_of(y);
                if k < front.len() {
                    assert(front[k] == y);
                    assert(front.contains(y));
                    let m = f.index_of(y);
                    assert(r[m] == y);
                } else {
                    assert(y == x);
                    if f.contains(x) {
                    } else {
                        assert(r[r.len() - 1] == x);
                    }
                }
            }
            if r.contains(y) {
                let k = r.index_of(y);
                if k < f.len() {
                    assert(f[k] == y);
                    assert(f.contains(y));
                    assert(front.contains(y));
                    let m = front.index_of(y);
                    assert(0 <= m < front.len() && front[m] == y);
                    assert(s[m] == y);
                } else {
                    assert(s[s.len() - 1] == y);
                }
            }
        }
        assert forall|i: int, j: int| 0 <= i < j < r.len() implies seen_before(
            s,
            #[trigger] r[i],
            #[trigger] r[j],
        ) by {
            if j < f.len() {
                assert(seen_before(front, f[i], f[j]));
                let a = choose|a: int|
                    0 <= a < front.len() && front[a] == f[i] && !front.take(a + 1).contains(f[j]);
                assert(s.take(a + 1) =~= front.take(a + 1));
                assert(s[a] == r[i]);
            } else {
                assert(!front.contains(x));
                assert(f.contains(f[i]));
                assert(front.contains(f[i]));
                let a = front.index_of(f[i]);
                assert(0 <= a < front.len() && front[a] == f[i]);
                assert(s[a] == r[i]);
                if s.take(a + 1).contains(x) {
                    let k = s.take(a + 1).index_of(x);
                    assert(front[k] == x);
                }
            }
        }
    }
}

/// The port at the end of the socket name `name`.
pub fn port_of_name(name: &Vec<char>) -> (r: Option<u16>)
    ensures
        r == spec_extract_port(name@),
{
    let tail = take_after_last_colon(name);
    parse_u16(&tail)
}

/// The port at the end of a socket name such as `*:3000`, `127.0.0.1:8080`
/// or `[::1]:443`.
pub fn extract_port_from_lsof_name(name: &str) -> (r: Option<u16>)
    ensures
        r == spec_extract_port(name@),
{
    let cs = chars_of(name);
    port_of_name(&cs)
}

/// Where `pid=` first stands in `s`.
fn find_pid_marker(s: &Vec<char>) -> (r: Option<usize>)
    ensures
        match r {
            Some(at) => at + 4 <= s.len() && first_occurrence(s@, pid_marker(), 0) == Some(
                at as int,
            ),
            None => first_occurrence(s@, pid_marker(), 0) == None::<int>,
        },
{
    let mut i: usize = 0;
    while s.len() >= 4 && i <= s.len() - 4
        invariant
            i <= s.len(),
            first_occurrence(s@, pid_marker(), 0) == first_occurrence(s@, pid_marker(), i as int),
        decreases s.len() - i,
    {
        if s[i] == 'p' && s[i + 1] == 'i' && s[i + 2] == 'd' && s[i + 3] == '=' {
            assert(s@.subrange(i as int, i + 4) =~= pid_marker());
            return Some(i);
        }
        assert(s@.subrange(i as int, i + 4) != pid_marker()) by {
            if s@.subrange(i as int, i + 4) == pid_marker() {
                assert(s@.subrange(i as int, i + 4)[0] == 'p');
                assert(s@.subrange(i as int, i + 4)[1] == 'i');
                assert(s@.subrange(i as int, i + 4)[2] == 'd');
                assert(s@.subrange(i as int, i + 4)[3] == '=');
            }
        }
        i += 1;
    }
    None
}

/// The PID that the process column `field` names.
pub fn pid_of_field(field: &Vec<char>) -> (r: Option<i64>)
    ensures
        r == spec_extract_pid(field@),
{
    match find_pid_marker(field) {
        Some(at) => {
            let from: usize = at + 4;
            let end = digit_run_end(field, from);
            let digits = slice_of(field, from, end);
            assert(digits@ =~= leading_digits(field@.skip(from as int)));
            parse_i64(&digits)
        },
        None => None,
    }
}

/// The PID in a process column such as `users:(("node",pid=12345,fd=23))`.
pub fn extract_pid_from_ss(field: &str) -> (r: Option<i64>)
    ensures
        r == spec_extract_pid(field@),
{
    let cs = chars_of(field);
    pid_of_field(&cs)
}

/// Reads one line of a listing.
fn entry_of_line(format: ListingFormat, line: &Vec<char>) -> (r: Option<(i64, u16)>)
    ensures
        r == line_entry(format, line@),
{
    let parts = split_whitespace(line);
    assert(forall|k: int| 0 <= k < parts@.len() ==> (#[trigger] views(parts@)[k]) == parts@[k]@);
    match format {
        ListingFormat::Primary => {
            if parts.len() < 9 {
                return None;
            }
            let pid = match parse_i64(&parts[1]) {
                Some(p) => p,
                None => {
                    return None;
                },
            };
            match port_of_name(&parts[8]) {
                Some(port) => Some((pid, port)),
                None => None,
            }
        },
        ListingFormat::Fallback => {
            if parts.len() < 5 {
                return None;
            }
            let port = match port_of_name(&parts[3]) {
                Some(p) => p,
                None => {
                    return None;
                },
            };
            match pid_of_field(&parts[parts.len() - 1]) {
                Some(pid) => Some((pid, port)),
                None => None,
            }
        },
    }
}

/// The entry that one line of the primary format names.
pub fn parse_lsof_line(line: &str) -> (r: Option<(i64, u16)>)
    ensures
        r == lsof_entry(line@),
{
    let cs = chars_of(line);
    entry_of_line(ListingFormat::Primary, &cs)
}

/// The entry that one line of the fallback format names.
pub fn parse_ss_line(line: &str) -> (r: Option<(i64, u16)>)
    ensures
        r == ss_entry(line@),
{
    let cs = chars_of(line);
    entry_of_line(ListingFormat::Fallback, &cs)
}

/// Whether `list` holds `port`.
fn contains_port(list: &[u16], port: u16) -> (b: bool)
    ensures
        b == list@.contains(port),
{
    let mut i: usize = 0;
    while i < list.len()
        invariant
            i <= list.len(),
            forall|k: int| 0 <= k < i ==> list@[k] != port,
        decreases list.len() - i,
    {
        if list[i] == port {
            return true;
        }
        i += 1;
    }
    false
}

/// One more entry changes only the list of its PID, by `push_unique`.
pub proof fn lemma_table_push(es: Seq<(i64, u16)>, pid: i64, port: u16)
    ensures
        table_of(es.push((pid, port))) == table_of(es).insert(
            pid,
            push_unique(ports_of(table_of(es), pid), port),
        ),
{
    let after = es.push((pid, port));
    let new_list = push_unique(ports_of(table_of(es), pid), port);
    assert(after.drop_last() =~= es);
    assert(ports_for(after, pid) == ports_for(es, pid).push(port));
    assert(ports_for(es, pid).push(port).drop_last() =~= ports_for(es, pid));
    assert(first_seen(ports_for(after, pid)) == push_unique(
        first_seen(ports_for(es, pid)),
        port,
    ));
    assert(ports_for(es, pid).len() == 0 ==> first_seen(ports_for(es, pid)) =~= Seq::<
        u16,
    >::empty());
    assert(table_of(after)[pid] == new_list);
    assert forall|q: i64| q != pid implies ports_for(after, q) == ports_for(es, q) by {}
    assert(table_of(after).dom() =~= table_of(es).insert(pid, new_list).dom());
    assert(table_of(after) =~= table_of(es).insert(
        pid,
        push_unique(ports_of(table_of(es), pid), port),
    ));
}

/// Notes that `pid` listens on `port`.
fn record(map: &mut HashMap<i64, Vec<u16>>, pid: i64, port: u16)
    ensures
        port_lists(final(map)@) == port_lists(old(map)@).insert(
            pid,
            push_unique(ports_of(port_lists(old(map)@), pid), port),
        ),
{
    let mut list: Vec<u16> = match map.remove(&pid) {
        Some(v) => v,
        None => Vec::new(),
    };
    if !contains_port(list.as_slice(), port) {
        list.push(port);
    }
    map.insert(pid, list);
    assert(port_lists(map@) =~= port_lists(old(map)@).insert(
        pid,
        push_unique(ports_of(port_lists(old(map)@), pid), port),
    ));
}

/// Reads a whole listing in the given format.
pub fn parse_listing(format: ListingFormat, output: &str) -> (r: HashMap<i64, Vec<u16>>)
    ensures
        port_lists(r@) == listing_table(format, output@),
{
    let cs = chars_of(output);
    let ls = split_lines(&cs);
    let mut map: HashMap<i64, Vec<u16>> = HashMap::new();
    let mut i: usize = 1;
    assert(views(ls@).subrange(1, 1) =~= Seq::<Seq<char>>::empty());
    assert(port_lists(map@) =~= table_of(Seq::<(i64, u16)>::empty()));
    while i < ls.len()
        invariant
            1 <= i <= ls.len(),
            port_lists(map@) == table_of(entries(format, views(ls@).subrange(1, i as int))),
        decreases ls.len() - i,
    {
        let ghost read = views(ls@).subrange(1, i as int + 1);
        assert(read.drop_last() =~= views(ls@).subrange(1, i as int));
        assert(read.last() == ls@[i as int]@);
        match entry_of_line(format, &ls[i]) {
            Some((pid, port)) => {
                proof {
                    lemma_table_push(entries(format, read.drop_last()), pid, port);
                }
                record(&mut map, pid, port);
            },
            None => {},
        }
        i += 1;
    }
    assert(views(ls@).subrange(1, i as int) =~= lines(output@).drop_first());
    map
}

/// Reads the output of the primary tool, such as
/// ```text
/// COMMAND   PID USER   FD   TYPE  DEVICE SIZE/OFF NODE NAME
/// node    12345 user   23u  IPv6  0x...  0t0      TCP  *:3000 (LISTEN)
/// ```
pub fn parse_lsof_output(output: &str) -> (r: HashMap<i64, Vec<u16>>)
    ensures
        port_lists(r@) == listing_table(ListingFormat::Primary, output@),
{
    parse_listing(ListingFormat::Primary, output)
}

/// Reads the output of the fallback tool, such as
/// ```text
/// State  Recv-Q Send-Q Local Address:Port  Peer Address:Port  Process
/// LISTEN 0      128    0.0.0.0:3000        0.0.0.0:*          users:(("node",pid=12345,fd=23))
/// ```
pub fn parse_ss_output(output: &str) -> (r: HashMap<i64, Vec<u16>>)
    ensures
        port_lists(r@) == listing_table(ListingFormat::Fallback, output@),
{
    parse_listing(ListingFormat::Fallback, output)
}

/// What a run of a listing tool left behind: whether it exited with
/// success, and what it wrote to its standard output.
#[derive(Clone, Debug, PartialEq, Eq)]
pub struct ToolOutput {
    pub success: bool,
    pub stdout: String,
}

/// Whether a run can be read: the tool could be started and exited with
/// success. `None` stands for a tool that could not be started.
pub open spec fn usable(run: Option<ToolOutput>) -> bool {
    run matches Some(o) && o.success
}

/// The port table that the two runs give: that of the primary tool when it
/// can be read, else that of the fallback tool when that one can be read,
/// else none.
pub open spec fn resolved(primary: Option<ToolOutput>, fallback: Option<ToolOutput>) -> Option<
    Map<i64, Seq<u16>>,
> {
    if usable(primary) {
        Some(listing_table(ListingFormat::Primary, primary->0.stdout@))
    } else if usable(fallback) {
        Some(listing_table(ListingFormat::Fallback, fallback->0.stdout@))
    } else {
        None
    }
}

/// The program that produces a listing in the given format.
pub fn listing_program(format: ListingFormat) -> (r: &'static str)
    ensures
        r@ == match format {
            ListingFormat::Primary => "lsof"@,
            ListingFormat::Fallback => "ss"@,
        },
{
    match format {
        ListingFormat::Primary => "lsof",
        ListingFormat::Fallback => "ss",
    }
}

/// The arguments that make that program list the TCP sockets in LISTEN
/// state with their owning processes, ports in numbers.
pub fn listing_arguments(format: ListingFormat) -> (r: Vec<&'static str>)
    ensures
        r@.map_values(|a: &'static str| a@) == match format {
            ListingFormat::Primary => seq!["-iTCP"@, "-sTCP:LISTEN"@, "-P"@, "-n"@],
            ListingFormat::Fallback => seq!["-tlnp"@],
        },
{
    let mut r: Vec<&'static str> = Vec::new();
    match format {
        ListingFormat::Primary => {
            r.push("-iTCP");
            r.push("-sTCP:LISTEN");
            r.push("-P");
            r.push("-n");
            assert(r@.map_values(|a: &'static str| a@) =~= seq![
                "-iTCP"@,
                "-sTCP:LISTEN"@,
                "-P"@,
                "-n"@,
            ]);
        },
        ListingFormat::Fallback => {
            r.push("-tlnp");
            assert(r@.map_values(|a: &'static str| a@) =~= seq!["-tlnp"@]);
        },
    }
    r
}

/// Whether the fallback tool has to be run: the primary one could not be
/// started or did not exit with success.
pub fn needs_fallback(primary: &Option<ToolOutput>) -> (b: bool)
    ensures
        b == !usable(*primary),
{
    match primary {
        Some(o) => !o.success,
        None => true,
    }
}

/// The port table of the fallback tool's run, if it can be read.
pub fn try_ss_fallback(fallback: &Option<ToolOutput>) -> (r: Option<HashMap<i64, Vec<u16>>>)
    ensures
        match r {
            Some(m) => usable(*fallback) && port_lists(m@) == listing_table(
                ListingFormat::Fallback,
                fallback->0.stdout@,
            ),
            None => !usable(*fallback),
        },
{
    match fallback {
        Some(o) => {
            if !o.success {
                return None;
            }
            Some(parse_ss_output(o.stdout.as_str()))
        },
        None => None,
    }
}

/// The port table that the two runs give, if either can be read. The
/// fallback run is looked at only when `needs_fallback` holds of the primary
/// one.
pub fn get_listening_ports_inner(primary: &Option<ToolOutput>, fallback: &Option<ToolOutput>) -> (r:
    Option<HashMap<i64, Vec<u16>>>)
    ensures
        match r {
            Some(m) => resolved(*primary, *fallback) == Some(port_lists(m@)),
            None => resolved(*primary, *fallback) is None,
        },
{
    match primary {
        Some(o) => {
            if !o.success {
                return try_ss_fallback(fallback);
            }
            Some(parse_lsof_output(o.stdout.as_str()))
        },
        None => try_ss_fallback(fallback),
    }
}

/// The map from PID to listening TCP ports that the two runs give; empty
/// when neither can be read.
pub fn get_listening_ports(primary: &Option<ToolOutput>, fallback: &Option<ToolOutput>) -> (r:
    HashMap<i64, Vec<u16>>)
    ensures
        port_lists(r@) == match resolved(*primary, *fallback) {
            Some(table) => table,
            None => Map::<i64, Seq<u16>>::empty(),
        },
{
    match get_listening_ports_inner(primary, fallback) {
        Some(m) => m,
        None => {
            let m: HashMap<i64, Vec<u16>> = HashMap::new();
            assert(port_lists(m@) =~= Map::<i64, Seq<u16>>::empty());
            m
        },
    }
}

/// A table that was read from the primary run does not depend on the
/// fallback run.
pub proof fn lemma_fallback_unread(
    primary: Option<ToolOutput>,
    a: Option<ToolOutput>,
    b: Option<ToolOutput>,
)
    requires
        usable(primary),
    ensures
        resolved(primary, a) == resolved(primary, b),
{
}

/// Every entry of `s` is larger than the one before it.
pub open spec fn strictly_ascending(s: Seq<u16>) -> bool {
    forall|i: int, j: int| 0 <= i < j < s.len() ==> s[i] < s[j]
}

/// `shown` lists the members of `ports` in ascending order, each once.
pub open spec fn is_display_order(shown: Seq<u16>, ports: Seq<u16>) -> bool {
    strictly_ascending(shown) && forall|p: u16| shown.contains(p) <==> ports.contains(p)
}

/// There is only one way to list the members of `ports` in ascending order,
/// each once.
pub proof fn lemma_display_order_unique(a: Seq<u16>, b: Seq<u16>, ports: Seq<u16>)
    requires
        is_display_order(a, ports),
        is_display_order(b, ports),
    ensures
        a == b,
    decreases a.len(),
{
    if a.len() == 0 {
        if b.len() > 0 {
            assert(b.contains(b[0]));
            assert(a.contains(b[0]));
        }
        assert(a =~= b);
    } else {
        let top = a.last();
        assert(a.contains(top));
        assert(b.contains(top));
        let k = b.index_of(top);
        if k < b.len() - 1 {
            assert(b.contains(b.last()));
            assert(a.contains(b.last()));
            let m = a.index_of(b.last());
            assert(a[m] <= top);
        }
        assert(b.last() == top);
        let a0 = a.drop_last();
        let b0 = b.drop_last();
        assert forall|p: u16| a0.contains(p) <==> b0.contains(p) by {
            if a0.contains(p) {
                let i = a0.index_of(p);
                assert(a[i] == p && p < top);
                assert(a.contains(p));
                assert(b.contains(p));
                let j = b.index_of(p);
                assert(b0[j] == p);
            }
            if b0.contains(p) {
                let i = b0.index_of(p);
                assert(b[i] == p && p < top);
                assert(b.contains(p));
                assert(a.contains(p));
                let j = a.index_of(p);
                assert(a0[j] == p);
            }
        }
        lemma_display_order_unique(a0, b0, a0);
        assert(a =~= a0.push(top));
        assert(b =~= b0.push(top));
    }
}

/// The order in which ports are shown: ascending, each once.
pub open spec fn display_order(ports: Seq<u16>) -> Seq<u16> {
    choose|shown: Seq<u16>| is_display_order(shown, ports)
}

/// The ports of `ports` in the order in which they are shown.
pub fn sorted_unique_ports(ports: &[u16]) -> (r: Vec<u16>)
    ensures
        is_display_order(r@, ports@),
        r@ == display_order(ports@),
{
    let mut r: Vec<u16> = Vec::new();
    let mut i: usize = 0;
    while i < ports.len()
        invariant
            i <= ports.len(),
            is_display_order(r@, ports@.take(i as int)),
        decreases ports.len() - i,
    {
        let p = ports[i];
        let ghost before = r@;
        let ghost seen = ports@.take(i as int);
        let ghost next = ports@.take(i as int + 1);
        assert(next =~= seen.push(p));
        let mut k: usize = 0;
        while k < r.len() && r[k] < p
            invariant
                k <= r.len(),
                forall|j: int| 0 <= j < k ==> r@[j] < p,
            decreases r.len() - k,
        {
            k += 1;
        }
        if k < r.len() && r[k] == p {
            assert forall|x: u16| r@.contains(x) <==> next.contains(x) by {
                if next.contains(x) {
                    let at = next.index_of(x);
                    if at < seen.len() {
                        assert(seen[at] == x);
                        assert(seen.contains(x));
                    } else {
                        assert(r@[k as int] == x);
                    }
                }
                if r@.contains(x) {
                    assert(seen.contains(x));
                    let at = seen.index_of(x);
                    assert(next[at] == x);
                }
            }
        } else {
            r.insert(k, p);
            assert forall|a: int, b: int| 0 <= a < b < r@.len() implies r@[a] < r@[b] by {
                if b < k {
                } else if b == k {
                } else if a < k {
                    assert(r@[b] == before[b - 1]);
                    assert(before[k as int] > p);
                } else if a == k {
                    assert(r@[b] == before[b - 1]);
                    assert(before[k as int] > p);
                } else {
                    assert(r@[a] == before[a - 1]);
                    assert(r@[b] == before[b - 1]);
                }
            }
            assert forall|x: u16| r@.contains(x) <==> next.contains(x) by {
                if next.contains(x) {
                    let at = next.index_of(x);
                    if at < seen.len() {
                        assert(seen[at] == x);
                        assert(seen.contains(x));
                        assert(before.contains(x));
                        let m = before.index_of(x);
                        if m < k {
                            assert(r@[m] == x);
                        } else {
                            assert(r@[m + 1] == x);
                        }
                    } else {
                        assert(r@[k as int] == x);
                    }
                }
                if r@.contains(x) {
                    let m = r@.index_of(x);
                    if m == k {
                        assert(next[i as int] == x);
                    } else {
                        if m < k {
                            assert(before[m] == x);
                        } else {
                            assert(before[m - 1] == x);
                        }
                        assert(before.contains(x));
                        assert(seen.contains(x));
                        let at = seen.index_of(x);
                        assert(next[at] == x);
                    }
                }
            }
        }
        i += 1;
    }
    assert(ports@.take(i as int) =~= ports@);
    proof {
        lemma_display_order_unique(r@, display_order(ports@), ports@);
    }
    r
}

/// What stands between two ports of a list.
pub open spec fn list_separator() -> Seq<char> {
    seq![',', ' ']
}

/// What is shown in place of an empty list.
pub open spec fn no_ports() -> Seq<char> {
    seq!['-']
}

/// The decimal texts of the ports `shown`.
pub open spec fn port_texts(shown: Seq<u16>) -> Seq<Seq<char>> {
    shown.map_values(|p: u16| decimal_digits(p as nat))
}

/// A list of ports as it is shown: ascending, each once, in decimal, with a
/// comma and a space between neighbours; a dash when there is none.
pub open spec fn spec_format_ports(ports: Seq<u16>) -> Seq<char> {
    if ports.len() == 0 {
        no_ports()
    } else {
        join(port_texts(display_order(ports)), list_separator())
    }
}

/// The texts `parts` with `sep` between neighbours.
pub fn join_texts(parts: &Vec<String>, sep: &str) -> (r: String)
    ensures
        r@ == join(texts(parts@), sep@),
{
    let mut out = String::new();
    let mut i: usize = 0;
    assert(texts(parts@).take(0) =~= Seq::<Seq<char>>::empty());
    while i < parts.len()
        invariant
            i <= parts.len(),
            out@ == join(texts(parts@).take(i as int), sep@),
        decreases parts.len() - i,
    {
        let ghost read = texts(parts@).take(i as int + 1);
        assert(read.drop_last() =~= texts(parts@).take(i as int));
        assert(read.last() == parts@[i as int]@);
        if i > 0 {
            out.append(sep);
        }
        out.append(parts[i].as_str());
        assert(out@ =~= join(read, sep@));
        i += 1;
    }
    assert(texts(parts@).take(i as int) =~= texts(parts@));
    out
}

/// The decimal text of a port.
pub fn port_text(port: u16) -> (r: String)
    ensures
        r@ == decimal_digits(port as nat),
{
    let mut out = String::new();
    push_decimal(&mut out, port as u64);
    assert(out@ =~= decimal_digits(port as nat));
    out
}

/// Formats a list of ports for display, without colour.
pub fn format_ports(ports: &[u16]) -> (r: String)
    ensures
        r@ == spec_format_ports(ports@),
{
    if ports.len() == 0 {
        proof {
            reveal_strlit("-");
        }
        let r = String::from_str("-");
        assert(r@ =~= no_ports());
        return r;
    }
    let shown = sorted_unique_ports(ports);
    let mut parts: Vec<String> = Vec::new();
    let mut i: usize = 0;
    while i < shown.len()
        invariant
            i <= shown.len(),
            texts(parts@) == port_texts(shown@.take(i as int)),
        decreases shown.len() - i,
    {
        let ghost before = texts(parts@);
        let text = port_text(shown[i]);
        parts.push(text);
        assert(texts(parts@) =~= before.push(text@));
        assert(port_texts(shown@.take(i as int + 1)) =~= port_texts(shown@.take(i as int)).push(
            decimal_digits(shown@[i as int] as nat),
        ));
        i += 1;
    }
    assert(shown@.take(i as int) =~= shown@);
    proof {
        reveal_strlit(", ");
    }
    assert(", "@ =~= list_separator());
    join_texts(&parts, ", ")
}

/// The ports `shown` each in its colour: green where `open` holds it, red
/// where it does not.
pub open spec fn pieces_tinted(pieces: Seq<Seq<char>>, shown: Seq<u16>, open: Seq<u16>) -> bool {
    &&& pieces.len() == shown.len()
    &&& forall|i: int|
        0 <= i < shown.len() ==> tinted(
            #[trigger] pieces[i],
            decimal_digits(shown[i] as nat),
            if open.contains(shown[i]) {
                Tint::Green
            } else {
                Tint::Red
            },
        )
}

/// Formats a list of ports for display in colour: as `format_ports` does,
/// with each port green when `open` holds it and red when it does not, and
/// the dash of an empty list dimmed. `open` names the ports that were found
/// to accept connections.
pub fn format_ports_colored(ports: &[u16], open: &[u16]) -> (r: String)
    ensures
        ports@.len() == 0 ==> tinted(r@, no_ports(), Tint::Dim),
        ports@.len() > 0 ==> exists|pieces: Seq<Seq<char>>|
            pieces_tinted(pieces, display_order(ports@), open@) && r@ == join(
                pieces,
                list_separator(),
            ),
{
    if ports.len() == 0 {
        proof {
            reveal_strlit("-");
        }
        assert("-"@ =~= no_ports());
        return paint_dim("-");
    }
    let shown = sorted_unique_ports(ports);
    let mut parts: Vec<String> = Vec::new();
    let mut i: usize = 0;
    while i < shown.len()
        invariant
            i <= shown.len(),
            pieces_tinted(texts(parts@), shown@.take(i as int), open@),
        decreases shown.len() - i,
    {
        let port = shown[i];
        let text = port_text(port);
        proof {
            lemma_decimal_round_trip(port as nat);
            assert forall|k: int| 0 <= k < text@.len() implies text@[k] != escape_char() by {
                assert(is_digit(text@[k]));
            }
        }
        let piece = if contains_port(open, port) {
            paint_green(text.as_str())
        } else {
            paint_red(text.as_str())
        };
        let ghost before = texts(parts@);
        parts.push(piece);
        assert(texts(parts@) =~= before.push(piece@));
        i += 1;
    }
    assert(shown@.take(i as int) =~= shown@);
    proof {
        reveal_strlit(", ");
    }
    assert(", "@ =~= list_separator());
    join_texts(&parts, ", ")
}

} // verus!
