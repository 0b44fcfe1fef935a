//! What an interactive shell around the client needs to read its commands:
//! splitting a line into arguments, and reading port ranges, protocols and
//! actions.

use crate::forwards::PortForwardAction;
use crate::models::{
    dotted, protocol_name, protocol_named, Ipv4Addr, PortForwardEntry, PortForwardProtocol,
};
use crate::text::{
    chars_of, decimal, decimal_string, find_sep, next_sep, parse_number, parse_unsigned,
    push_decimal, same_but_case, same_text_ignoring_case,
};
use vstd::prelude::*;
use vstd::slice::slice_subrange;
use vstd::string::*;

verus! {

/// Whether `c` is white space, as Unicode defines it.
pub open spec fn is_space(c: char) -> bool {
    ||| '\u{9}' <= c <= '\u{d}'
    ||| c == ' '
    ||| c == '\u{85}'
    ||| c == '\u{a0}'
    ||| c == '\u{1680}'
    ||| '\u{2000}' <= c <= '\u{200a}'
    ||| c == '\u{2028}'
    ||| c == '\u{2029}'
    ||| c == '\u{202f}'
    ||| c == '\u{205f}'
    ||| c == '\u{3000}'
}

/// Tests whether `c` is white space.
pub fn is_whitespace(c: char) -> (r: bool)
    ensures
        r == is_space(c),
{
    ('\u{9}' <= c && c <= '\u{d}') || c == ' ' || c == '\u{85}' || c == '\u{a0}' || c
        == '\u{1680}' || ('\u{2000}' <= c && c <= '\u{200a}') || c == '\u{2028}' || c
        == '\u{2029}' || c == '\u{202f}' || c == '\u{205f}' || c == '\u{3000}'
}

/// The index of the first white space in `s` at or after `from`; the length
/// of `s` where there is none.
pub open spec fn next_space(s: Seq<char>, from: int) -> int
    decreases s.len() - from,
{
    if from >= s.len() {
        s.len() as int
    } else if is_space(s[from]) {
        from
    } else {
        next_space(s, from + 1)
    }
}

/// The index of the first character in `s` at or after `from` that is no
/// white space; the length of `s` where there is none.
pub open spec fn next_word(s: Seq<char>, from: int) -> int
    decreases s.len() - from,
{
    if from >= s.len() {
        s.len() as int
    } else if !is_space(s[from]) {
        from
    } else {
        next_word(s, from + 1)
    }
}

/// `next_space` gives the first white space from `from` on, and no other
/// index.
pub proof fn lemma_next_space(s: Seq<char>, from: int)
    requires
        0 <= from <= s.len(),
    ensures
        from <= next_space(s, from) <= s.len(),
        next_space(s, from) < s.len() ==> is_space(s[next_space(s, from)]),
        forall|k: int| from <= k < next_space(s, from) ==> !is_space(s[k]),
    decreases s.len() - from,
{
    if from < s.len() && !is_space(s[from]) {
        lemma_next_space(s, from + 1);
    }
}

/// `next_word` gives the first character from `from` on that is no white
/// space, and no other index.
pub proof fn lemma_next_word(s: Seq<char>, from: int)
    requires
        0 <= from <= s.len(),
    ensures
        from <= next_word(s, from) <= s.len(),
        next_word(s, from) < s.len() ==> !is_space(s[next_word(s, from)]),
        forall|k: int| from <= k < next_word(s, from) ==> is_space(s[k]),
    decreases s.len() - from,
{
    if from < s.len() && is_space(s[from]) {
        lemma_next_word(s, from + 1);
    }
}

/// Where an argument stands in a line, and where the search for the next
/// one starts.
pub struct ArgSpan {
    pub start: int,
    pub end: int,
    pub next: int,
}

/// The first argument of the line `text` from `at` on. White space before it
/// is skipped. An argument that starts with a double quote runs up to the
/// next double quote, or to the end of the line if there is none, and the
/// quotes are no part of it. Any other argument runs up to the next white
/// space.
pub open spec fn arg_from(text: Seq<char>, at: int) -> Option<ArgSpan> {
    let start = next_word(text, at);
    if start >= text.len() {
        None
    } else if text[start] == '"' {
        let quote = next_sep(text, '"', start + 1);
        Some(
            ArgSpan {
                start: start + 1,
                end: quote,
                next: if quote < text.len() {
                    quote + 1
                } else {
                    quote
                },
            },
        )
    } else {
        let end = next_space(text, start);
        Some(ArgSpan { start, end, next: end })
    }
}

/// The arguments of a command line, handed out one by one. Arguments are
/// separated by white space; one in double quotes may hold white space.
pub struct QuotableArgs<'a> {
    s: &'a str,
    chars: Vec<char>,
    at: usize,
}

impl<'a> QuotableArgs<'a> {
    #[verifier::type_invariant]
    spec fn well_formed(self) -> bool {
        self.chars@ == self.s@ && self.at <= self.chars.len()
    }

    /// The whole line.
    pub closed spec fn text(&self) -> Seq<char> {
        self.s@
    }

    /// How far into the line the arguments were handed out.
    pub closed spec fn position(&self) -> int {
        self.at as int
    }

    /// The arguments of the line `s`, none of them handed out yet.
    pub fn new(s: &'a str) -> (args: Self)
        ensures
            args.text() == s@,
            args.position() == 0,
    {
        QuotableArgs { s, chars: chars_of(s), at: 0 }
    }

    /// Hands out the next argument, if the line has one more.
    pub fn next(&mut self) -> (arg: Option<&'a str>)
        ensures
            final(self).text() == old(self).text(),
            old(self).position() <= final(self).position() <= old(self).text().len(),
            match arg_from(old(self).text(), old(self).position()) {
                None => arg is None && final(self).position() == old(self).text().len(),
                Some(span) => {
                    &&& arg matches Some(found)
                    &&& found@ == old(self).text().subrange(span.start, span.end)
                    &&& final(self).position() == span.next
                    &&& final(self).position() > old(self).position()
                },
            },
    {
        proof {
            use_type_invariant(&*self);
            lemma_next_word(self.s@, self.at as int);
        }
        let len: usize = self.chars.len();
        let mut start: usize = self.at;
        while start < len && is_whitespace(self.chars[start])
            invariant
                self.at <= start <= len,
                len == self.chars.len(),
                next_word(self.chars@, self.at as int) == next_word(self.chars@, start as int),
            decreases len - start,
        {
            start += 1;
        }
        if start >= len {
            self.at = len;
            return None;
        }
        if self.chars[start] == '"' {
            let quote: usize = find_sep(&self.chars, '"', start + 1);
            let found = self.s.substring_char(start + 1, quote);
            self.at = if quote < len {
                quote + 1
            } else {
                quote
            };
            return Some(found);
        }
        proof {
            lemma_next_space(self.s@, start as int);
        }
        let mut end: usize = start;
        while end < len && !is_whitespace(self.chars[end])
            invariant
                start <= end <= len,
                len == self.chars.len(),
                next_space(self.chars@, start as int) == next_space(self.chars@, end as int),
            decreases len - end,
        {
            end += 1;
        }
        let found = self.s.substring_char(start, end);
        self.at = end;
        Some(found)
    }
}

/// The range of ports that `s` denotes: two numbers that fit in 16 bits, with
/// the first `-` of `s` between them.
pub open spec fn port_range(s: Seq<char>) -> Option<(nat, nat)> {
    let dash = next_sep(s, '-', 0);
    if dash >= s.len() {
        None
    } else {
        match (
            parse_unsigned(s.subrange(0, dash), u16::MAX as nat),
            parse_unsigned(s.subrange(dash + 1, s.len() as int), u16::MAX as nat),
        ) {
            (Some(first), Some(last)) => Some((first, last)),
            _ => None,
        }
    }
}

/// Reads a range of ports, written as `first-last`.
pub fn parse_port_range(s: &str) -> (r: Option<(u16, u16)>)
    ensures
        match r {
            Some((first, last)) => port_range(s@) == Some((first as nat, last as nat)),
            None => port_range(s@) is None,
        },
{
    let chars = chars_of(s);
    let dash: usize = find_sep(&chars, '-', 0);
    if dash >= chars.len() {
        return None;
    }
    let first = match parse_number(slice_subrange(chars.as_slice(), 0, dash), 65535) {
        Some(n) => n as u16,
        None => {
            return None;
        },
    };
    let rest = slice_subrange(chars.as_slice(), dash + 1, chars.len());
    let last = match parse_number(rest, 65535) {
        Some(n) => n as u16,
        None => {
            return None;
        },
    };
    Some((first, last))
}

/// The action that goes by `name`, in whatever case it is written. Nothing
/// is called keeping: a forward that is not named is kept.
pub open spec fn action_named(name: Seq<char>) -> Option<PortForwardAction> {
    if same_but_case(name, "enable"@) {
        Some(PortForwardAction::Enable)
    } else if same_but_case(name, "disable"@) {
        Some(PortForwardAction::Disable)
    } else if same_but_case(name, "delete"@) {
        Some(PortForwardAction::Delete)
    } else {
        None
    }
}

/// Reads the name of an action: `enable`, `disable` or `delete`.
pub fn parse_action(name: &str) -> (action: Option<PortForwardAction>)
    ensures
        action == action_named(name@),
{
    if same_text_ignoring_case(name, "enable") {
        Some(PortForwardAction::Enable)
    } else if same_text_ignoring_case(name, "disable") {
        Some(PortForwardAction::Disable)
    } else if same_text_ignoring_case(name, "delete") {
        Some(PortForwardAction::Delete)
    } else {
        None
    }
}

/// The decision that applies `action` to the forward numbered `id` and
/// keeps every other.
pub fn action_for(entry: &PortForwardEntry, id: u32, action: PortForwardAction) -> (decision:
    PortForwardAction)
    ensures
        decision == if entry.id == id {
            action
        } else {
            PortForwardAction::Keep
        },
{
    if entry.id == id {
        action
    } else {
        PortForwardAction::Keep
    }
}

/// Which argument of a new forward is wrong.
#[derive(Clone, Copy, Debug, PartialEq, Eq, Structural)]
pub enum AddError {
    /// The protocol goes by no known name.
    InvalidProtocol,
    /// The outside ports are no range.
    InvalidRange,
    /// The inside ports are no range.
    InvalidInternalRange,
}

/// The forward that the arguments of a shell describe. The protocol is
/// judged first, then the outside ports, then the inside ports, which are
/// the outside ports where none are given. The forward carries no id yet.
pub open spec fn described_forward(
    local_ip: Ipv4Addr,
    range: Seq<char>,
    int_range: Option<Seq<char>>,
    protocol: Seq<char>,
    disable: bool,
) -> Result<PortForwardEntry, AddError> {
    match protocol_named(protocol) {
        None => Err(AddError::InvalidProtocol),
        Some(protocol) => match port_range(range) {
            None => Err(AddError::InvalidRange),
            Some(outside) => {
                let inside = match int_range {
                    None => Some(outside),
                    Some(text) => port_range(text),
                };
                match inside {
                    None => Err(AddError::InvalidInternalRange),
                    Some(inside) => Ok(
                        PortForwardEntry {
                            id: 0,
                            local_ip,
                            start_port: outside.0 as u16,
                            end_port: outside.1 as u16,
                            start_port_in: inside.0 as u16,
                            end_port_in: inside.1 as u16,
                            protocol,
                            enable: !disable,
                        },
                    ),
                }
            },
        },
    }
}

/// Makes the forward that the arguments of a shell describe.
pub fn new_port_forward(
    local_ip: Ipv4Addr,
    range: &str,
    int_range: Option<&str>,
    protocol: &str,
    disable: bool,
) -> (r: Result<PortForwardEntry, AddError>)
    ensures
        r == described_forward(
            local_ip,
            range@,
            match int_range {
                None => None,
                Some(text) => Some(text@),
            },
            protocol@,
            disable,
        ),
{
    let protocol = match PortForwardProtocol::new(protocol) {
        Some(protocol) => protocol,
        None => {
            return Err(AddError::InvalidProtocol);
        },
    };
    let outside = match parse_port_range(range) {
        Some(ports) => ports,
        None => {
            return Err(AddError::InvalidRange);
        },
    };
    let inside = match int_range {
        None => outside,
        Some(text) => match parse_port_range(text) {
            Some(ports) => ports,
            None => {
                return Err(AddError::InvalidInternalRange);
            },
        },
    };
    Ok(
        PortForwardEntry {
            id: 0,
            local_ip,
            start_port: outside.0,
            end_port: outside.1,
            start_port_in: inside.0,
            end_port_in: inside.1,
            protocol,
            enable: !disable,
        },
    )
}

/// A range of ports in words.
pub open spec fn range_text(first: u16, last: u16) -> Seq<char> {
    decimal(first as nat) + seq!['-'] + decimal(last as nat)
}

fn range_string(first: u16, last: u16) -> (s: String)
    ensures
        s@ == range_text(first, last),
{
    proof {
        reveal_strlit("-");
    }
    let mut s = decimal_string(first as u64);
    s.append("-");
    push_decimal(&mut s, last as u64);
    assert(s@ =~= range_text(first, last));
    s
}

/// The cells of a forward in a table: its id, the local host, the outside
/// ports, the inside ports, the protocol, and whether it is on.
pub open spec fn row_texts(entry: PortForwardEntry) -> Seq<Seq<char>> {
    seq![
        decimal(entry.id as nat),
        dotted(entry.local_ip),
        range_text(entry.start_port, entry.end_port),
        range_text(entry.start_port_in, entry.end_port_in),
        protocol_name(entry.protocol),
        if entry.enable {
            "true"@
        } else {
            "false"@
        },
    ]
}

/// Writes the cells of a forward for a table.
pub fn port_forward_row(entry: &PortForwardEntry) -> (row: Vec<String>)
    ensures
        row.len() == 6,
        forall|k: int| 0 <= k < 6 ==> (#[trigger] row[k])@ == row_texts(*entry)[k],
{
    let mut row: Vec<String> = Vec::new();
    row.push(decimal_string(entry.id as u64));
    row.push(entry.local_ip.to_string());
    row.push(range_string(entry.start_port, entry.end_port));
    row.push(range_string(entry.start_port_in, entry.end_port_in));
    row.push(String::from_str(entry.protocol.name()));
    row.push(
        String::from_str(
            if entry.enable {
                "true"
            } else {
                "false"
            },
        ),
    );
    row
}

} // verus!
