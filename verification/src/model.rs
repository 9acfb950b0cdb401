//! The typed intermediate model: a declaration's raw type spelling, a named
//! argument, a native function declaration, and an inferred widget.

use vstd::prelude::*;

use crate::strutil::{contains_seq, contains_str, ends_with_str, starts_with_str};

verus! {

/// The raw spelling of a native type, as one token-separated string.
pub struct LvType {
    pub literal_name: String,
}

/// A named, typed parameter of a native declaration.
pub struct LvArg {
    pub name: String,
    pub typ: LvType,
}

/// A native function declaration: name, ordered parameters, optional return
/// type spelling.
pub struct LvFunc {
    pub name: String,
    pub args: Vec<LvArg>,
    pub ret: Option<LvType>,
}

/// An inferred widget: its lowercase library-internal name and the
/// declarations grouped under it as methods.
pub struct LvWidget {
    pub name: String,
    pub methods: Vec<LvFunc>,
}

/// Mathematical model of an argument.
pub ghost struct ArgModel {
    pub name: Seq<char>,
    pub typ: Seq<char>,
}

/// Mathematical model of a declaration.
pub ghost struct FuncModel {
    pub name: Seq<char>,
    pub args: Seq<ArgModel>,
    pub ret: Option<Seq<char>>,
}

/// Mathematical model of a widget.
pub ghost struct WidgetModel {
    pub name: Seq<char>,
    pub methods: Seq<FuncModel>,
}

impl View for LvType {
    type V = Seq<char>;

    open spec fn view(&self) -> Seq<char> {
        self.literal_name@
    }
}

impl View for LvArg {
    type V = ArgModel;

    open spec fn view(&self) -> ArgModel {
        ArgModel { name: self.name@, typ: self.typ@ }
    }
}

impl View for LvFunc {
    type V = FuncModel;

    open spec fn view(&self) -> FuncModel {
        FuncModel {
            name: self.name@,
            args: self.args@.map_values(|a: LvArg| a@),
            ret: match self.ret {
                Some(ref t) => Some(t@),
                None => None,
            },
        }
    }
}

impl View for LvWidget {
    type V = WidgetModel;

    open spec fn view(&self) -> WidgetModel {
        WidgetModel { name: self.name@, methods: self.methods@.map_values(|f: LvFunc| f@) }
    }
}

/// The spelling carries a leading const qualifier.
pub open spec fn is_const_spec(t: Seq<char>) -> bool {
    "const "@.is_prefix_of(t)
}

/// The spelling denotes a pointer to a narrow character string.
pub open spec fn is_str_spec(t: Seq<char>) -> bool {
    "* const cty :: c_char"@.is_suffix_of(t)
}

/// The declaration's first parameter is an object handle, so the declaration
/// can stand as a method whose receiver that parameter becomes.
pub open spec fn is_method_spec(f: FuncModel) -> bool {
    f.args.len() > 0 && contains_seq(f.args[0].typ, "lv_obj_t"@)
}

impl LvType {
    pub fn new(literal_name: String) -> (r: Self)
        ensures
            r@ == literal_name@,
    {
        Self { literal_name }
    }

    pub fn is_const(&self) -> (r: bool)
        ensures
            r == is_const_spec(self@),
    {
        starts_with_str(self.literal_name.as_str(), "const ")
    }

    pub fn is_str(&self) -> (r: bool)
        ensures
            r == is_str_spec(self@),
    {
        ends_with_str(self.literal_name.as_str(), "* const cty :: c_char")
    }
}

impl Clone for LvType {
    fn clone(&self) -> (r: Self)
        ensures
            r@ == self@,
    {
        LvType { literal_name: self.literal_name.clone() }
    }
}

impl LvArg {
    pub fn new(name: String, typ: LvType) -> (r: Self)
        ensures
            r@ == (ArgModel { name: name@, typ: typ@ }),
    {
        Self { name, typ }
    }

    pub fn get_type(&self) -> (r: &LvType)
        ensures
            r@ == self@.typ,
    {
        &self.typ
    }
}

impl Clone for LvArg {
    fn clone(&self) -> (r: Self)
        ensures
            r@ == self@,
    {
        LvArg { name: self.name.clone(), typ: self.typ.clone() }
    }
}

impl LvFunc {
    pub fn new(name: String, args: Vec<LvArg>, ret: Option<LvType>) -> (r: Self)
        ensures
            r@.name == name@,
            r@.args == args@.map_values(|a: LvArg| a@),
            r@.ret == match ret {
                Some(t) => Some(t@),
                None => None::<Seq<char>>,
            },
    {
        Self { name, args, ret }
    }

    pub fn is_method(&self) -> (r: bool)
        ensures
            r == is_method_spec(self@),
    {
        if self.args.len() > 0 {
            let first_arg = &self.args[0];
            contains_str(first_arg.typ.literal_name.as_str(), "lv_obj_t")
        } else {
            false
        }
    }
}

impl Clone for LvFunc {
    fn clone(&self) -> (r: Self)
        ensures
            r@ == self@,
    {
        let mut args: Vec<LvArg> = Vec::new();
        let mut i: usize = 0;
        while i < self.args.len()
            invariant
                i <= self.args.len(),
                args@.len() == i,
                forall|j: int| 0 <= j < i ==> args@[j]@ == self.args@[j]@,
            decreases self.args.len() - i,
        {
            args.push(self.args[i].clone());
            i += 1;
        }
        let ret = match &self.ret {
            Some(t) => Some(t.clone()),
            None => None,
        };
        let r = LvFunc { name: self.name.clone(), args, ret };
        proof {
            assert(r@.args =~= self@.args);
        }
        r
    }
}

impl LvWidget {
    pub fn new(name: String, methods: Vec<LvFunc>) -> (r: Self)
        ensures
            r@.name == name@,
            r@.methods == methods@.map_values(|f: LvFunc| f@),
    {
        Self { name, methods }
    }
}

impl Clone for LvWidget {
    fn clone(&self) -> (r: Self)
        ensures
            r@ == self@,
    {
        let mut methods: Vec<LvFunc> = Vec::new();
        let mut i: usize = 0;
        while i < self.methods.len()
            invariant
                i <= self.methods.len(),
                methods@.len() == i,
                forall|j: int| 0 <= j < i ==> methods@[j]@ == self.methods@[j]@,
            decreases self.methods.len() - i,
        {
            methods.push(self.methods[i].clone());
            i += 1;
        }
        let r = LvWidget { name: self.name.clone(), methods };
        proof {
            assert(r@.methods =~= self@.methods);
        }
        r
    }
}

} // verus!
