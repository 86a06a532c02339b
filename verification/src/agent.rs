//! What the agent prints about how to reach it.
use vstd::prelude::*;

use crate::text::{join, join_text};

verus! {

/// The example command printed for workstations.
pub open spec fn example_line(id: Seq<char>, relay_url: Option<Seq<char>>) -> Seq<char> {
    match relay_url {
        Some(url) => "  far-reach flash --peer "@ + id + " --relay-url "@ + url
            + " --target <target> --firmware <firmware>"@,
        None => "  far-reach flash --peer "@ + id + " --target <target> --firmware <firmware>"@,
    }
}

/// The lines printed when the agent is online: its endpoint id, its relay
/// URL and direct addresses when it has them, then an example command.
pub open spec fn addressing_text(
    id: Seq<char>,
    relay_url: Option<Seq<char>>,
    addrs: Seq<Seq<char>>,
) -> Seq<Seq<char>> {
    seq!["agent endpoint id: "@ + id] + match relay_url {
        Some(url) => seq!["agent relay url: "@ + url],
        None => Seq::empty(),
    } + if addrs.len() > 0 {
        seq!["agent direct addrs: "@ + join_text(addrs, seq![' '])]
    } else {
        Seq::empty()
    } + seq![Seq::empty(), "client example:"@, example_line(id, relay_url), Seq::empty()]
}

/// A string made of `a` followed by `b`.
fn concat(a: &str, b: &str) -> (s: String)
    ensures
        s@ == a@ + b@,
{
    let mut s = String::from_str(a);
    s.append(b);
    s
}

/// The lines the agent prints about how to reach it.
pub fn addressing_lines(id: &str, relay_url: Option<&str>, addrs: &Vec<String>) -> (lines: Vec<
    String,
>)
    ensures
        lines.deep_view() == addressing_text(
            id@,
            match relay_url {
                Some(u) => Some(u@),
                None => None,
            },
            addrs.deep_view(),
        ),
{
    let ghost relay = match relay_url {
        Some(u) => Some(u@),
        None => None,
    };
    let mut lines: Vec<String> = Vec::new();
    lines.push(concat("agent endpoint id: ", id));
    match relay_url {
        Some(url) => lines.push(concat("agent relay url: ", url)),
        None => {},
    }
    if addrs.len() > 0 {
        let joined = join(addrs, " ");
        proof {
            reveal_strlit(" ");
            assert(" "@ =~= seq![' ']);
        }
        lines.push(concat("agent direct addrs: ", joined.as_str()));
    }
    lines.push(String::new());
    lines.push(String::from_str("client example:"));
    let example = match relay_url {
        Some(url) => {
            let mut s = concat("  far-reach flash --peer ", id);
            s.append(" --relay-url ");
            s.append(url);
            s.append(" --target <target> --firmware <firmware>");
            s
        },
        None => {
            let mut s = concat("  far-reach flash --peer ", id);
            s.append(" --target <target> --firmware <firmware>");
            s
        },
    };
    lines.push(example);
    lines.push(String::new());
    assert(lines.deep_view() =~= addressing_text(id@, relay, addrs.deep_view()));
    lines
}

} // verus!
