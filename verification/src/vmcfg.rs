//! Where the configurations of guests come from.

use vstd::prelude::*;

use axvmconfig::AxVMCrateConfig;

use crate::vmtypes;

verus! {

/// The texts of configurations.
pub open spec fn texts(configs: Seq<String>) -> Seq<Seq<char>> {
    configs.map_values(|config: String| config@)
}

/// The texts of static configurations.
pub open spec fn static_texts(configs: Seq<&'static str>) -> Seq<Seq<char>> {
    configs.map_values(|config: &'static str| config@)
}

/// The texts with a positive verdict, in their order.
pub open spec fn kept(texts: Seq<Seq<char>>, verdicts: Seq<bool>) -> Seq<Seq<char>>
    decreases texts.len(),
{
    if texts.len() == 0 {
        Seq::empty()
    } else {
        let before = kept(texts.drop_last(), verdicts);
        if verdicts[texts.len() - 1] {
            before.push(texts.last())
        } else {
            before
        }
    }
}

/// Which texts are configurations.
pub open spec fn parse_verdicts(texts: Seq<Seq<char>>) -> Seq<bool> {
    texts.map_values(|text: Seq<char>| vmtypes::toml_config(text) is Some)
}

/// The texts that are configurations, in their order.
pub open spec fn valid_texts(texts: Seq<Seq<char>>) -> Seq<Seq<char>> {
    kept(texts, parse_verdicts(texts))
}

/// The configurations that are built in where none is supplied: none.
pub fn default_static_vm_configs() -> (configs: Vec<&'static str>)
    ensures
        configs@ == Seq::<&'static str>::empty(),
{
    Vec::new()
}

/// The configurations with a positive verdict.
pub fn keep_valid_configs(contents: &Vec<String>, verdicts: &Vec<bool>) -> (configs: Vec<String>)
    requires
        contents@.len() == verdicts@.len(),
    ensures
        texts(configs@) == kept(texts(contents@), verdicts@),
{
    let mut configs: Vec<String> = Vec::new();
    let mut i: usize = 0;
    proof {
        assert(texts(configs@) =~= kept(texts(contents@).take(0), verdicts@));
    }
    while i < contents.len()
        invariant
            i <= contents@.len(),
            contents@.len() == verdicts@.len(),
            texts(configs@) == kept(texts(contents@).take(i as int), verdicts@),
        decreases contents@.len() - i,
    {
        let ghost before = configs@;
        if verdicts[i] {
            configs.push(contents[i].clone());
        }
        i = i + 1;
        proof {
            let done = texts(contents@).take(i as int);
            assert(done.drop_last() =~= texts(contents@).take(i - 1));
            if verdicts@[i - 1] {
                assert(texts(configs@) =~= texts(before).push(done.last()));
            }
        }
    }
    proof {
        assert(texts(contents@).take(i as int) =~= texts(contents@));
    }
    configs
}

/// The configurations that the host's filesystem holds: those of its files that parse. `None`
/// stands for a host without a filesystem.
pub fn filesystem_vm_configs(contents: Option<Vec<String>>) -> (configs: Vec<String>)
    ensures
        texts(configs@) == match contents {
            Some(contents) => valid_texts(texts(contents@)),
            None => Seq::empty(),
        },
{
    match contents {
        Some(contents) => {
            let mut verdicts: Vec<bool> = Vec::new();
            let mut i: usize = 0;
            while i < contents.len()
                invariant
                    i <= contents@.len(),
                    verdicts@ == parse_verdicts(texts(contents@)).take(i as int),
                decreases contents@.len() - i,
            {
                verdicts.push(AxVMCrateConfig::from_toml(&contents[i]).is_ok());
                i = i + 1;
                proof {
                    assert(verdicts@ =~= parse_verdicts(texts(contents@)).take(i as int));
                }
            }
            proof {
                assert(verdicts@ =~= parse_verdicts(texts(contents@)));
            }
            keep_valid_configs(&contents, &verdicts)
        },
        None => {
            let configs: Vec<String> = Vec::new();
            proof {
                assert(texts(configs@) =~= Seq::empty());
            }
            configs
        },
    }
}

/// What is kept are configurations only, and every configuration is kept.
pub proof fn valid_texts_are_the_configurations(all: Seq<Seq<char>>, text: Seq<char>)
    ensures
        valid_texts(all).contains(text) <==> all.contains(text) && vmtypes::toml_config(text)
            is Some,
{
    kept_are_those_with_a_verdict(all, parse_verdicts(all), text);
    if all.contains(text) && vmtypes::toml_config(text) is Some {
        let i = choose|i: int| 0 <= i < all.len() && all[i] == text;
        assert(parse_verdicts(all)[i]);
    }
    if valid_texts(all).contains(text) {
        let i = choose|i: int|
            0 <= i < all.len() && all[i] == text && #[trigger] parse_verdicts(all)[i];
        assert(all.contains(all[i]));
    }
}

/// What is kept are the texts with a positive verdict.
proof fn kept_are_those_with_a_verdict(all: Seq<Seq<char>>, verdicts: Seq<bool>, text: Seq<char>)
    requires
        all.len() <= verdicts.len(),
    ensures
        kept(all, verdicts).contains(text) <==> exists|i: int|
            0 <= i < all.len() && all[i] == text && #[trigger] verdicts[i],
    decreases all.len(),
{
    if all.len() > 0 {
        let shorter = all.drop_last();
        let before = kept(shorter, verdicts);
        let last = all.len() - 1;
        kept_are_those_with_a_verdict(shorter, verdicts, text);
        if before.contains(text) {
            let i = choose|i: int|
                0 <= i < shorter.len() && shorter[i] == text && #[trigger] verdicts[i];
            assert(all[i] == text && verdicts[i]);
        }
        if verdicts[last] {
            let after = before.push(all.last());
            if before.contains(text) {
                let k = choose|k: int| 0 <= k < before.len() && before[k] == text;
                assert(after[k] == text);
            }
            assert(after[before.len() as int] == all[last]);
        }
        if exists|i: int| 0 <= i < all.len() && all[i] == text && #[trigger] verdicts[i] {
            let i = choose|i: int|
                0 <= i < all.len() && all[i] == text && #[trigger] verdicts[i];
            if i < last {
                assert(shorter[i] == text && verdicts[i]);
            }
        }
    }
}

/// What is kept of two joined lists is what is kept of each, one behind the other.
pub proof fn kept_parts_stay_in_order(
    first: Seq<Seq<char>>,
    first_verdicts: Seq<bool>,
    second: Seq<Seq<char>>,
    second_verdicts: Seq<bool>,
)
    requires
        first.len() == first_verdicts.len(),
        second.len() == second_verdicts.len(),
    ensures
        kept(first + second, first_verdicts + second_verdicts) == kept(first, first_verdicts)
            + kept(second, second_verdicts),
    decreases second.len(),
{
    let verdicts = first_verdicts + second_verdicts;
    if second.len() == 0 {
        assert(first + second =~= first);
        assert(verdicts =~= first_verdicts);
        assert(kept(first, first_verdicts) + kept(second, second_verdicts) =~= kept(
            first,
            first_verdicts,
        ));
    } else {
        let shorter = second.drop_last();
        let shorter_verdicts = second_verdicts.drop_last();
        kept_parts_stay_in_order(first, first_verdicts, shorter, shorter_verdicts);
        kept_needs_its_own_verdicts(
            first + shorter,
            first_verdicts + shorter_verdicts,
            verdicts,
        );
        kept_needs_its_own_verdicts(shorter, shorter_verdicts, second_verdicts);
        assert((first + second).drop_last() =~= first + shorter);
        assert(kept(first + second, verdicts) =~= kept(first, first_verdicts) + kept(
            second,
            second_verdicts,
        ));
    }
}

/// Verdicts behind those of the texts do not matter.
proof fn kept_needs_its_own_verdicts(
    all: Seq<Seq<char>>,
    verdicts: Seq<bool>,
    longer: Seq<bool>,
)
    requires
        all.len() <= verdicts.len() <= longer.len(),
        forall|i: int| 0 <= i < verdicts.len() ==> verdicts[i] == longer[i],
    ensures
        kept(all, verdicts) == kept(all, longer),
    decreases all.len(),
{
    if all.len() > 0 {
        kept_needs_its_own_verdicts(all.drop_last(), verdicts, longer);
    }
}

/// One text is kept as it is with a positive verdict, and not at all with a negative one.
pub proof fn one_text_is_kept_or_not(text: Seq<char>, verdict: bool)
    ensures
        kept(seq![text], seq![verdict]) == if verdict {
            seq![text]
        } else {
            Seq::empty()
        },
{
    reveal_with_fuel(kept, 2);
    assert(seq![text].drop_last() =~= Seq::empty());
    assert(kept(seq![text], seq![verdict]) =~= if verdict {
        seq![text]
    } else {
        Seq::empty()
    });
}

/// Of two joined lists of files the configurations are those of each, one behind the other.
pub proof fn configurations_stay_in_order(first: Seq<Seq<char>>, second: Seq<Seq<char>>)
    ensures
        valid_texts(first + second) == valid_texts(first) + valid_texts(second),
{
    assert(parse_verdicts(first + second) =~= parse_verdicts(first) + parse_verdicts(second));
    kept_parts_stay_in_order(first, parse_verdicts(first), second, parse_verdicts(second));
}

/// One file is taken as it is if it parses, and not at all otherwise.
pub proof fn one_file_is_taken_if_it_parses(text: Seq<char>)
    ensures
        vmtypes::toml_config(text) is Some ==> valid_texts(seq![text]) == seq![text],
        vmtypes::toml_config(text) is None ==> valid_texts(seq![text]) == Seq::<Seq<char>>::empty(),
        valid_texts(Seq::empty()) == Seq::<Seq<char>>::empty(),
{
    let verdict = vmtypes::toml_config(text) is Some;
    assert(parse_verdicts(seq![text]) =~= seq![verdict]);
    one_text_is_kept_or_not(text, verdict);
}

/// The texts of configurations are their characters, each at its place.
pub proof fn texts_keep_their_places(
    configs: Seq<String>,
    fixed: Seq<&'static str>,
    at: int,
)
    ensures
        texts(configs).len() == configs.len(),
        0 <= at < configs.len() ==> texts(configs)[at] == configs[at]@,
        static_texts(fixed).len() == fixed.len(),
        0 <= at < fixed.len() ==> static_texts(fixed)[at] == fixed[at]@,
{
}

} // verus!
