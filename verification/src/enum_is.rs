//! `EnumIs`: one `is_<variant>` checker per variant.
use vstd::prelude::*;
use crate::enum_name::idents;
use crate::model::{strings, EnumInput, Failure, MacroError};
use crate::rename_case::{heck_snake_case, snake_case_of, str_eq};

verus! {

/// The checker method for a variant identifier: `is_` and the identifier in snake case.
pub open spec fn is_method_name(ident: Seq<char>) -> Seq<char> {
    "is_"@ + snake_case_of(ident)
}

/// What `EnumIs` generates: `methods[i]` is true exactly on the variant with index `i`.
#[derive(Clone, Debug, PartialEq, Eq)]
pub struct IsMethods {
    pub methods: Vec<String>,
}

/// What `EnumIs` makes of its input: the checker names, or why it refuses it.
pub open spec fn enum_is_outcome(input: EnumInput) -> Result<Seq<Seq<char>>, Failure> {
    match input.variants {
        None => Err(Failure::NotAnEnum),
        Some(vs) => Ok(idents(vs@).map_values(|s: Seq<char>| is_method_name(s))),
    }
}

/// The index of the first method from index `i` on that is called `name`.
pub open spec fn first_method(ms: Seq<Seq<char>>, name: Seq<char>, i: int) -> Option<int>
    decreases ms.len() - i,
{
    if i < 0 || i >= ms.len() {
        None
    } else if ms[i] == name {
        Some(i)
    } else {
        first_method(ms, name, i + 1)
    }
}

/// The checker method's name for a variant identifier.
pub fn is_method_for(ident: &str) -> (r: String)
    ensures
        r@ == is_method_name(ident@),
{
    let mut m: String = "is_".to_owned();
    let snake = heck_snake_case(ident);
    m.append(snake.as_str());
    m
}

/// Names a checker method for every variant.
pub fn implement_enum_is(input: &EnumInput) -> (r: Result<IsMethods, MacroError>)
    ensures
        match r {
            Ok(t) => enum_is_outcome(*input) matches Ok(ms) && ms == strings(t.methods@),
            Err(e) => enum_is_outcome(*input) matches Err(f) && f == e@,
        },
{
    let vs = match &input.variants {
        None => {
            return Err(MacroError::NotAnEnum);
        },
        Some(vs) => vs,
    };
    let ghost all = idents(vs@).map_values(|s: Seq<char>| is_method_name(s));
    let mut methods: Vec<String> = Vec::new();
    let mut i: usize = 0;
    assert(strings(methods@) =~= all.take(0));
    while i < vs.len()
        invariant
            0 <= i <= vs.len(),
            all == idents(vs@).map_values(|s: Seq<char>| is_method_name(s)),
            strings(methods@) == all.take(i as int),
        decreases vs.len() - i,
    {
        let m = is_method_for(vs[i].ident.as_str());
        let ghost old = methods@;
        methods.push(m);
        proof {
            assert(strings(methods@) =~= strings(old).push(m@));
            assert(all.take(i + 1) =~= all.take(i as int).push(all[i as int]));
        }
        i = i + 1;
    }
    assert(all.take(vs.len() as int) =~= all);
    Ok(IsMethods { methods })
}

impl IsMethods {
    /// Calls the checker called `method` on a value of the variant with index
    /// `variant`: `None` when no checker has that name.
    pub fn check(&self, method: &str, variant: usize) -> (r: Option<bool>)
        ensures
            match first_method(strings(self.methods@), method@, 0) {
                Some(j) => r == Some(j == variant),
                None => r is None,
            },
    {
        let ghost ms = strings(self.methods@);
        let mut i: usize = 0;
        while i < self.methods.len()
            invariant
                0 <= i <= self.methods.len(),
                ms == strings(self.methods@),
                first_method(ms, method@, 0) == first_method(ms, method@, i as int),
            decreases self.methods.len() - i,
        {
            if str_eq(self.methods[i].as_str(), method) {
                return Some(i == variant);
            }
            i = i + 1;
        }
        None
    }
}

} // verus!
