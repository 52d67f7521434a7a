use vstd::prelude::*;
use vstd::seq_lib::lemma_flatten_concat;
use crate::token::{spec_try_match, Token};

verus! {

/// smol_str's `SmolStr`: the immutable small-string type that carries a
/// command's opaque help and callback references. Opaque to the verifier; the
/// library only stores and moves such values.
#[verifier::external_type_specification]
#[verifier::external_body]
pub struct ExSmolStr(smol_str::SmolStr);

/// Relies on smol_str::SmolStr::clone: it returns a copy of the same string,
/// indistinguishable from the original.
pub assume_specification[ <smol_str::SmolStr as Clone>::clone ](s: &smol_str::SmolStr) -> (r:
    smol_str::SmolStr)
    ensures
        r == *s,
;

/// One recognizable command form: an ordered sequence of slots, fixed at
/// construction, plus a help-text reference and a callback reference. The two
/// references are opaque identifiers, resolved by external consumers.
#[derive(Clone)]
pub struct Command {
    pub tokens: Vec<Token>,
    pub help: smol_str::SmolStr,
    pub cb: smol_str::SmolStr,
}

impl Command {
    /// Builds a command shape from its slot sequence and its opaque help and
    /// callback references; the slot sequence may be empty. No validation is
    /// performed on the references.
    pub fn new(tokens: Vec<Token>, help: smol_str::SmolStr, cb: smol_str::SmolStr) -> (r: Self)
        ensures
            r.tokens == tokens,
            r.help == help,
            r.cb == cb,
    {
        Self { tokens, help, cb }
    }
}

/// The input paired with slot position `i`: the argument at `i`, or `None`
/// once the supplied arguments are exhausted.
pub open spec fn paired_input(args: Seq<Seq<char>>, i: int) -> Option<Seq<char>> {
    if 0 <= i < args.len() {
        Some(args[i])
    } else {
        None
    }
}

/// Whether a slot sequence accepts an argument sequence: every slot, paired
/// positionally with the next argument (or with absence once the input is
/// exhausted), matches, and no argument is left without a slot.
pub open spec fn spec_shape_matches(tokens: Seq<Token>, args: Seq<Seq<char>>) -> bool {
    &&& args.len() <= tokens.len()
    &&& forall|i: int| 0 <= i < tokens.len() ==> spec_try_match(tokens[i], paired_input(args, i)) is Some
}

/// Whether a command's shape accepts an argument sequence.
pub open spec fn spec_command_matches(c: Command, args: Seq<Seq<char>>) -> bool {
    spec_shape_matches(c.tokens@, args)
}

/// A command shape with no slots accepts exactly the empty argument sequence:
/// any supplied argument is left without a slot and is rejected, not ignored.
pub proof fn lemma_zero_slot_shape(c: Command, args: Seq<Seq<char>>)
    requires
        c.tokens@.len() == 0,
    ensures
        spec_command_matches(c, args) <==> args.len() == 0,
{
}

/// The catalogue assembled from per-category command lists: their
/// concatenation, in category order.
pub open spec fn spec_all(categories: Seq<Seq<Command>>) -> Seq<Command> {
    categories.flatten()
}

/// The slot sequences held by a sequence of category lists.
pub open spec fn views_of(categories: Seq<Vec<Command>>) -> Seq<Seq<Command>> {
    categories.map_values(|v: Vec<Command>| v@)
}

/// Assembles the full catalogue by concatenating the per-category command
/// lists, in the order they are supplied; nothing is deduplicated, validated
/// or reordered.
#[verifier::loop_isolation(false)]
pub fn all(categories: Vec<Vec<Command>>) -> (r: Vec<Command>)
    ensures
        r@ == spec_all(views_of(categories@)),
{
    let mut cats = categories;
    let mut r: Vec<Command> = Vec::new();
    proof {
        assert(r@ + spec_all(views_of(cats@)) =~= spec_all(views_of(categories@)));
    }
    while cats.len() > 0
        invariant
            r@ + spec_all(views_of(cats@)) == spec_all(views_of(categories@)),
        decreases cats@.len(),
    {
        let ghost pre_cats = cats@;
        let ghost pre_r = r@;
        let mut v = cats.remove(0);
        r.append(&mut v);
        proof {
            let m = views_of(pre_cats);
            assert(m.len() > 0);
            assert(spec_all(m) == m.first() + m.drop_first().flatten());
            assert(views_of(cats@) =~= m.drop_first());
            assert(r@ =~= pre_r + pre_cats[0]@);
            assert(r@ + spec_all(views_of(cats@)) =~= pre_r + spec_all(m));
        }
    }
    proof {
        assert(views_of(cats@) =~= Seq::<Seq<Command>>::empty());
        assert(r@ + spec_all(views_of(cats@)) =~= r@);
    }
    r
}

/// Catalogue assembly is associative and order-preserving: assembling the
/// categories of two groups one after the other yields the same flat
/// catalogue as assembling each group and concatenating the results.
pub proof fn lemma_assembly_concat(left: Seq<Seq<Command>>, right: Seq<Seq<Command>>)
    ensures
        spec_all(left + right) == spec_all(left) + spec_all(right),
{
    lemma_flatten_concat(left, right);
    assert(spec_all(left + right) =~= spec_all(left) + spec_all(right));
}

} // verus!
