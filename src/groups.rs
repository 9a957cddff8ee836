//! Splitting the argument tokens into OR-groups at a separator token.

use vstd::prelude::*;

verus! {

/// The tokens cut at each separator: one group more than there are
/// separators, the separators themselves dropped. No tokens give one empty group.
pub open spec fn split_on(tokens: Seq<String>, separator: Seq<char>) -> Seq<Seq<String>>
    decreases tokens.len(),
{
    if tokens.len() == 0 {
        seq![Seq::empty()]
    } else {
        let prev = split_on(tokens.drop_last(), separator);
        if tokens.last()@ == separator {
            prev.push(Seq::empty())
        } else {
            prev.update(prev.len() - 1, prev.last().push(tokens.last()))
        }
    }
}

/// There is always at least one group.
pub proof fn lemma_split_nonempty(tokens: Seq<String>, separator: Seq<char>)
    ensures
        split_on(tokens, separator).len() >= 1,
    decreases tokens.len(),
{
    if tokens.len() > 0 {
        lemma_split_nonempty(tokens.drop_last(), separator);
    }
}

/// Splits `tokens` into groups at each `separator`, and puts `program` in
/// front of each group, where an option parser expects the program's name.
pub fn split_groups(tokens: &Vec<String>, separator: &String, program: &String) -> (r: Vec<
    Vec<String>,
>)
    ensures
        r@.len() == split_on(tokens@, separator@).len(),
        forall|g: int|
            0 <= g < r@.len() ==> #[trigger] r@[g]@ == seq![*program] + split_on(
                tokens@,
                separator@,
            )[g],
{
    let mut done: Vec<Vec<String>> = Vec::new();
    let mut current: Vec<String> = vec![program.clone()];
    let mut i: usize = 0;
    while i < tokens.len()
        invariant
            i <= tokens@.len(),
            done@.len() + 1 == split_on(tokens@.take(i as int), separator@).len(),
            forall|g: int|
                0 <= g < done@.len() ==> #[trigger] done@[g]@ == seq![*program] + split_on(
                    tokens@.take(i as int),
                    separator@,
                )[g],
            current@ == seq![*program] + split_on(tokens@.take(i as int), separator@).last(),
        decreases tokens@.len() - i,
    {
        let ghost before = split_on(tokens@.take(i as int), separator@);
        proof {
            lemma_split_nonempty(tokens@.take(i as int), separator@);
            assert(tokens@.take(i as int + 1).drop_last() =~= tokens@.take(i as int));
        }
        if tokens[i].eq(separator) {
            done.push(current);
            current = vec![program.clone()];
            proof {
                let after = split_on(tokens@.take(i as int + 1), separator@);
                assert(after == before.push(Seq::empty()));
                assert(current@ =~= seq![*program] + after.last());
            }
        } else {
            current.push(tokens[i].clone());
            proof {
                let after = split_on(tokens@.take(i as int + 1), separator@);
                assert(after == before.update(before.len() - 1, before.last().push(tokens@[i as int])));
                assert(current@ =~= seq![*program] + after.last());
            }
        }
        i = i + 1;
    }
    done.push(current);
    assert(tokens@.take(tokens@.len() as int) =~= tokens@);
    done
}

} // verus!
