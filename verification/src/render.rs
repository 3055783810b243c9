//! Rendering stored tips back into markdown text: one heading block per
//! tip, blocks joined by a blank separator, and a count header when more
//! than one tip is shown. Putting the text on a terminal is the caller's
//! concern.

use vstd::prelude::*;

use crate::model::{entities_model, Entity};
use crate::text::{spec_u64_dec, u64_to_string};

verus! {

/// The markdown block rendering one tip: its title as a heading, then its
/// content.
pub open spec fn spec_tip_markdown(title: Seq<char>, content: Seq<char>) -> Seq<char> {
    "### "@ + title + "\n"@ + content + "\n"@
}

/// The blocks of all tips in order, separated by one newline.
pub open spec fn spec_tip_blocks(em: Seq<(Seq<char>, Seq<char>, Seq<char>)>) -> Seq<char>
    decreases em.len(),
{
    if em.len() == 0 {
        Seq::empty()
    } else if em.len() == 1 {
        spec_tip_markdown(em.last().1, em.last().2)
    } else {
        spec_tip_blocks(em.drop_last()) + "\n"@ + spec_tip_markdown(em.last().1, em.last().2)
    }
}

/// The full rendering: the joined blocks, under a count header when more
/// than one tip is shown.
pub open spec fn spec_render_tips(em: Seq<(Seq<char>, Seq<char>, Seq<char>)>) -> Seq<char> {
    if em.len() > 1 {
        "## Found "@ + spec_u64_dec(em.len()) + " tips\n\n\n\n"@ + spec_tip_blocks(em)
    } else {
        spec_tip_blocks(em)
    }
}

/// Renders one tip as its markdown block.
pub fn render_tip(e: &Entity) -> (r: String)
    ensures
        r@ == spec_tip_markdown(e.title@, e.content@),
{
    String::from_str("### ").concat(e.title.as_str()).concat("\n").concat(
        e.content.as_str(),
    ).concat("\n")
}

/// Renders all tips, joined and headed as the terminal view shows them.
pub fn render_tips(tips: &Vec<Entity>) -> (r: String)
    ensures
        r@ == spec_render_tips(entities_model(tips@)),
{
    let ghost em = entities_model(tips@);
    let mut blocks = String::new();
    proof {
        assert(em.take(0) =~= Seq::<(Seq<char>, Seq<char>, Seq<char>)>::empty());
        assert(blocks@ =~= spec_tip_blocks(em.take(0)));
    }
    let n = tips.len();
    let mut i: usize = 0;
    while i < n
        invariant
            i <= n,
            n == tips.len(),
            em == entities_model(tips@),
            blocks@ == spec_tip_blocks(em.take(i as int)),
        decreases n - i,
    {
        let ghost before = blocks@;
        if i > 0 {
            blocks.append("\n");
        }
        let block = render_tip(&tips[i]);
        blocks.append(block.as_str());
        proof {
            assert(tips@[i as int].model() == em[i as int]);
            assert(em.take(i + 1).drop_last() =~= em.take(i as int));
            assert(em.take(i + 1).last() == em[i as int]);
            if i == 0 {
                assert(blocks@ =~= spec_tip_blocks(em.take(1)));
            } else {
                assert(blocks@ =~= spec_tip_blocks(em.take(i + 1)));
            }
        }
        i = i + 1;
    }
    proof {
        assert(em.take(n as int) =~= em);
    }
    if n > 1 {
        let count = u64_to_string(n as u64);
        let r = String::from_str("## Found ").concat(count.as_str()).concat(" tips\n\n\n\n").concat(
            blocks.as_str(),
        );
        proof {
            assert(r@ =~= spec_render_tips(em));
        }
        r
    } else {
        blocks
    }
}

} // verus!
