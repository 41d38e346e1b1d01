//! Column widths of the list of children.

use vstd::prelude::*;
use crate::node::Node;
use crate::node::name_bytes;
use crate::text::decimal;
use crate::text::decimal_width;

verus! {

/// Width of the widest child count among the nodes, in digits; 0 for no
/// nodes.
pub open spec fn widest_count(nodes: Seq<Node>) -> nat
    decreases nodes.len(),
{
    if nodes.len() == 0 {
        0
    } else {
        let rest = widest_count(nodes.drop_last());
        let own = decimal(nodes.last().subkey_count as nat).len();
        if own > rest {
            own
        } else {
            rest
        }
    }
}

/// Length of the longest name among the nodes, in bytes; 0 for no nodes.
pub open spec fn widest_name(nodes: Seq<Node>) -> nat
    decreases nodes.len(),
{
    if nodes.len() == 0 {
        0
    } else {
        let rest = widest_name(nodes.drop_last());
        let own = name_bytes(nodes.last()).len();
        if own > rest {
            own
        } else {
            rest
        }
    }
}

/// The widths that the columns of child counts and of names need to show
/// every node in full.
pub fn column_widths(nodes: &Vec<Node>) -> (widths: (usize, usize))
    ensures
        widths.0 == widest_count(nodes@),
        widths.1 == widest_name(nodes@),
{
    let mut count_width: usize = 0;
    let mut name_width: usize = 0;
    let mut i: usize = 0;
    proof {
        assert(nodes@.take(0) =~= Seq::<Node>::empty());
    }
    while i < nodes.len()
        invariant
            i <= nodes@.len(),
            count_width == widest_count(nodes@.take(i as int)),
            name_width == widest_name(nodes@.take(i as int)),
        decreases nodes@.len() - i,
    {
        proof {
            assert(nodes@.take(i + 1).drop_last() =~= nodes@.take(i as int));
            assert(nodes@.take(i + 1).last() == nodes@[i as int]);
        }
        let own_count = decimal_width(nodes[i].subkey_count as u64);
        if own_count > count_width {
            count_width = own_count;
        }
        let own_name = nodes[i].name.as_str().as_bytes().len();
        if own_name > name_width {
            name_width = own_name;
        }
        i += 1;
    }
    proof {
        assert(nodes@.take(i as int) =~= nodes@);
    }
    (count_width, name_width)
}

} // verus!
