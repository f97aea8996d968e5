//! Shops: what a shop shows to who enters it.

use vstd::prelude::*;
use crate::path::texts;

verus! {

/// The lines that the shop called `name` shows.
pub open spec fn shop_lines(name: Seq<char>) -> Seq<Seq<char>> {
    seq![
        "Welcome to the "@ + name + " shop!"@,
        "Type ls to browse the stock. Run `help` to see how to navigate the shop."@,
        ""@,
        "Shops are currently not implemented."@,
    ]
}

/// Enters the shop called `name`: hands back the lines that it shows.
pub fn shop(name: &str) -> (lines: Vec<String>)
    ensures
        texts(lines@) == shop_lines(name@),
{
    let mut lines: Vec<String> = Vec::new();
    let mut welcome = "Welcome to the ".to_owned();
    welcome.append(name);
    welcome.append(" shop!");
    lines.push(welcome);
    lines.push(
        "Type ls to browse the stock. Run `help` to see how to navigate the shop.".to_owned(),
    );
    lines.push("".to_owned());
    lines.push("Shops are currently not implemented.".to_owned());
    lines
}

} // verus!
