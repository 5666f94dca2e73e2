//! Whether ComfyUI has a checkpoint model, from the list it reports.
use vstd::prelude::*;
use crate::text::str_eq;

verus! {

/// Whether a checkpoint is available, and which ones are.
#[derive(Debug)]
pub struct ComfyuiModelStatus {
    pub available: bool,
    pub available_models: Vec<String>,
}

pub open spec fn names_view(v: Seq<String>) -> Seq<Seq<char>> {
    v.map_values(|s: String| s@)
}

/// The model is available when ComfyUI lists it under exactly its name.
pub fn model_status(model_name: &str, available_models: Vec<String>) -> (st: ComfyuiModelStatus)
    ensures
        st.available == names_view(available_models@).contains(model_name@),
        st.available_models@ == available_models@,
{
    let mut found = false;
    let mut i: usize = 0;
    while i < available_models.len()
        invariant
            i <= available_models.len(),
            found == (exists|j: int| 0 <= j < i && available_models@[j]@ == model_name@),
        decreases available_models.len() - i,
    {
        if str_eq(available_models[i].as_str(), model_name) {
            found = true;
        }
        i = i + 1;
    }
    proof {
        if found {
            let j = choose|j: int| 0 <= j < available_models.len() && available_models@[j]@ == model_name@;
            assert(names_view(available_models@)[j] == model_name@);
        }
        if names_view(available_models@).contains(model_name@) {
            let j = choose|j: int| 0 <= j < names_view(available_models@).len() && names_view(available_models@)[j] == model_name@;
            assert(available_models@[j]@ == model_name@);
        }
    }
    ComfyuiModelStatus { available: found, available_models }
}

/// The names in a list of values reported by ComfyUI: the values that are
/// strings, in order (`None` stands for any other value).
pub fn string_entries(values: Vec<Option<String>>) -> (r: Vec<String>)
    ensures
        r@ == values@.filter_map(|v: Option<String>| v),
{
    let mut r: Vec<String> = Vec::new();
    let mut rest = values;
    let ghost all = rest@;
    let n = rest.len();
    let mut i: usize = 0;
    proof {
        assert(all.take(0) =~= Seq::<Option<String>>::empty());
    }
    while i < n
        invariant
            n == all.len(),
            i <= n,
            rest@ == all.skip(i as int),
            r@ == all.take(i as int).filter_map(|v: Option<String>| v),
        decreases n - i,
    {
        let v = rest.remove(0);
        proof {
            assert(v == all[i as int]);
            assert(rest@ =~= all.skip(i + 1));
            all.lemma_filter_map_take_succ(|v: Option<String>| v, i as int);
        }
        match v {
            Some(s) => {
                let ghost prev = r@;
                r.push(s);
                proof {
                    assert(r@ =~= prev + seq![all[i as int]->0]);
                }
            },
            None => {},
        }
        i = i + 1;
    }
    proof {
        assert(all.take(n as int) =~= all);
    }
    r
}

} // verus!
