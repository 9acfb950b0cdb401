//! The per-construct emission rules: the closed type-mapping table, argument
//! translation, method generation (constructor and regular), and widget
//! generation, each specified exactly over the models.

use vstd::prelude::*;

use crate::model::{
    is_const_spec, is_str_spec, ArgModel, FuncModel, LvArg, LvFunc, LvType, LvWidget, WidgetModel,
};
use crate::foreign::{accepts_ident, is_plain_ident, pascal_of, to_pascal};
use crate::strutil::{contains_seq, contains_str, replace_seq, replace_all, str_eq};
use crate::{lib_prefix, spec_lib_prefix, Rusty, WrapperError, WrapperResult};

verus! {

/// The closed type-mapping table: the target spelling for a raw spelling,
/// or `None` for every spelling outside the table.
pub open spec fn mapped_type_spec(t: Seq<char>) -> Option<Seq<char>> {
    if t == "u16"@ {
        Some("u16"@)
    } else if t == "i32"@ {
        Some("i32"@)
    } else if t == "u8"@ {
        Some("u8"@)
    } else if t == "bool"@ {
        Some("bool"@)
    } else if t == "* const cty :: c_char"@ {
        Some("_"@)
    } else {
        None
    }
}

/// The emitted type expression for a raw spelling: a read-only string view
/// for the string-pointer spelling, a reference for spellings of
/// library-internal aggregates, the mapped spelling itself otherwise.
pub open spec fn type_code_spec(t: Seq<char>) -> Option<Seq<char>> {
    match mapped_type_spec(t) {
        None => None,
        Some(m) => if is_str_spec(t) {
            Some("&cstr_core::CStr"@)
        } else if contains_seq(t, "lv_"@) {
            Some("&"@ + m)
        } else {
            Some(m)
        },
    }
}

/// An argument's name as it can stand in generated code: spelled raw when it
/// collides with a keyword.
pub open spec fn name_ident_spec(n: Seq<char>) -> Seq<char> {
    if accepts_ident(n) {
        n
    } else {
        "r#"@ + n
    }
}

/// The expression that hands an argument to the native call: a string
/// argument is converted to its raw pointer form right before the call.
pub open spec fn value_usage_spec(a: ArgModel) -> Seq<char> {
    if is_str_spec(a.typ) {
        name_ident_spec(a.name) + ".as_ptr()"@
    } else {
        name_ident_spec(a.name)
    }
}

/// The `name: type` fragment an argument contributes to a generated
/// signature, or `None` when its type has no table entry.
pub open spec fn arg_decl_spec(a: ArgModel) -> Option<Seq<char>> {
    match type_code_spec(a.typ) {
        Some(t) => Some(name_ident_spec(a.name) + ": "@ + t),
        None => None,
    }
}

impl Rusty for LvType {
    type Parent = LvArg;

    /// Translates this raw spelling through the type-mapping table; a lookup
    /// miss is an `Unsupported` outcome for the caller to skip on.
    fn code(&self, _parent: &Self::Parent) -> (r: WrapperResult<String>)
        ensures
            match r {
                Ok(s) => type_code_spec(self@) == Some(s@),
                Err(e) => type_code_spec(self@) is None && e == WrapperError::Skip,
            },
    {
        let lit = self.literal_name.as_str();
        let mapped: &str = if str_eq(lit, "u16") {
            "u16"
        } else if str_eq(lit, "i32") {
            "i32"
        } else if str_eq(lit, "u8") {
            "u8"
        } else if str_eq(lit, "bool") {
            "bool"
        } else if str_eq(lit, "* const cty :: c_char") {
            "_"
        } else {
            return Err(WrapperError::Skip);
        };
        if self.is_str() {
            Ok(String::from_str("&cstr_core::CStr"))
        } else if contains_str(lit, "lv_") {
            let mut s = String::from_str("&");
            s.append(mapped);
            Ok(s)
        } else {
            Ok(String::from_str(mapped))
        }
    }
}

impl LvArg {
    /// The argument's name as an identifier for generated code, spelled raw
    /// when it collides with a keyword.
    pub fn get_name_ident(&self) -> (r: String)
        ensures
            r@ == name_ident_spec(self@.name),
    {
        if is_plain_ident(self.name.as_str()) {
            self.name.clone()
        } else {
            let mut s = String::from_str("r#");
            s.append(self.name.as_str());
            s
        }
    }

    /// The statements that prepare this argument before the native call;
    /// no argument kind needs preparation.
    pub fn get_processing(&self) -> (r: String)
        ensures
            r@ == Seq::<char>::empty(),
    {
        String::new()
    }

    /// The expression that hands this argument to the native call.
    pub fn get_value_usage(&self) -> (r: String)
        ensures
            r@ == value_usage_spec(self@),
    {
        let mut s = self.get_name_ident();
        if self.typ.is_str() {
            s.append(".as_ptr()");
        }
        s
    }
}

/// A method's name: the declaration's name with every occurrence of the
/// `<prefix><widget-name>_` segment removed.
pub open spec fn strip_name(w: Seq<char>, n: Seq<char>) -> Seq<char> {
    replace_seq(n, spec_lib_prefix() + w + "_"@, Seq::<char>::empty())
}

/// The constructor fragment for a creation declaration: a `create(parent)`
/// entry point that checks the returned raw handle for null, and a
/// no-argument `new()` entry point that resolves the active screen and
/// delegates to `create`.
pub open spec fn ctor_code_spec(fname: Seq<char>) -> Seq<char> {
    "pub fn create(parent: &mut impl crate::NativeObject) -> crate::LvResult<Self> { unsafe { let ptr = lvgl_sys::"@
        + fname
        + "(parent.raw().as_mut(),); if let Some(raw) = core::ptr::NonNull::new(ptr) { let core = <crate::Obj as crate::Widget>::from_raw(raw).unwrap(); Ok(Self { core }) } else { Err(crate::LvError::InvalidReference) } } } pub fn new() -> crate::LvResult<Self> { let mut parent = crate::display::get_scr_act()?; Self::create(&mut parent) }"@
}

/// The translated return type: the unit type for a void declaration, the
/// same-width target type for the small fixed set of scalar and boolean
/// spellings, and `None` (a skip) for every other shape.
pub open spec fn ret_code_spec(ret: Option<Seq<char>>) -> Option<Seq<char>> {
    match ret {
        None => Some("()"@),
        Some(t) => if t == "bool"@ || t == "u32"@ || t == "i32"@ || t == "u16"@ || t == "i16"@
            || t == "u8"@ || t == "i8"@ {
            Some(t)
        } else {
            None
        },
    }
}

/// The receiver the first parameter becomes: immutable if its type is
/// const-qualified, mutable otherwise.
pub open spec fn receiver_spec(a0: ArgModel) -> Seq<char> {
    if is_const_spec(a0.typ) {
        "&self"@
    } else {
        "&mut self"@
    }
}

/// The signature fragments of parameters `1 .. i`, each preceded by a comma.
pub open spec fn decls_upto(args: Seq<ArgModel>, i: int) -> Seq<char>
    decreases i,
{
    if i <= 1 {
        Seq::<char>::empty()
    } else {
        decls_upto(args, i - 1) + ", "@ + arg_decl_spec(args[i - 1]).unwrap()
    }
}

/// The full generated parameter list: the receiver, then every remaining
/// parameter's fragment.
pub open spec fn decl_list(args: Seq<ArgModel>) -> Seq<char> {
    if args.len() == 0 {
        Seq::<char>::empty()
    } else {
        receiver_spec(args[0]) + decls_upto(args, args.len() as int)
    }
}

/// The native-call arguments for parameters `1 .. i`, each preceded by a
/// comma.
pub open spec fn ffi_upto(args: Seq<ArgModel>, i: int) -> Seq<char>
    decreases i,
{
    if i <= 1 {
        Seq::<char>::empty()
    } else {
        ffi_upto(args, i - 1) + ", "@ + value_usage_spec(args[i - 1])
    }
}

/// The full native-call argument list: the receiver's raw handle, then every
/// remaining argument's usage expression.
pub open spec fn ffi_list(args: Seq<ArgModel>) -> Seq<char> {
    if args.len() == 0 {
        Seq::<char>::empty()
    } else {
        "self.core.raw().as_mut()"@ + ffi_upto(args, args.len() as int)
    }
}

/// Every parameter after the receiver translates through the table.
pub open spec fn args_ok(args: Seq<ArgModel>) -> bool {
    forall|i: int| 1 <= i < args.len() ==> (#[trigger] arg_decl_spec(args[i])) is Some
}

/// The call statement's closing: a statement semicolon for a void
/// declaration, nothing when the call's value is the method's result.
pub open spec fn semi_spec(ret: Option<Seq<char>>) -> Seq<char> {
    if ret is None {
        ";"@
    } else {
        Seq::<char>::empty()
    }
}

/// The method fragment a declaration contributes to its widget: the special
/// constructor fragment when the stripped name is exactly `create`, a
/// forwarding wrapper method otherwise, and `None` (a skip) when the return
/// type or any parameter type cannot be translated.
pub open spec fn method_code_spec(w: Seq<char>, f: FuncModel) -> Option<Seq<char>> {
    let nn = strip_name(w, f.name);
    if nn == "create"@ {
        Some(ctor_code_spec(f.name))
    } else {
        match ret_code_spec(f.ret) {
            None => None,
            Some(rt) => if !args_ok(f.args) {
                None
            } else {
                Some(
                    "pub fn "@ + nn + "("@ + decl_list(f.args) + ") -> "@ + rt
                        + " { unsafe { lvgl_sys::"@ + f.name + "("@ + ffi_list(f.args) + ")"@
                        + semi_spec(f.ret) + " } }"@,
                )
            },
        }
    }
}

impl Rusty for LvFunc {
    type Parent = LvWidget;

    /// Produces this declaration's method fragment for the given widget, or
    /// `Skip` when some type in it cannot be translated.
    #[verifier::loop_isolation(false)]
    fn code(&self, parent: &Self::Parent) -> (r: WrapperResult<String>)
        ensures
            match r {
                Ok(s) => method_code_spec(parent@.name, self@) == Some(s@),
                Err(e) => method_code_spec(parent@.name, self@) is None && e
                    == WrapperError::Skip,
            },
    {
        let mut templ = String::from_str(lib_prefix());
        templ.append(parent.name.as_str());
        templ.append("_");
        let new_name = replace_all(self.name.as_str(), templ.as_str(), "");
        proof {
            reveal_strlit("");
            assert(""@ =~= Seq::<char>::empty());
            assert(new_name@ == strip_name(parent@.name, self@.name));
        }
        // The constructor path: independent of the type table.
        if str_eq(new_name.as_str(), "create") {
            let mut out = String::from_str(
                "pub fn create(parent: &mut impl crate::NativeObject) -> crate::LvResult<Self> { unsafe { let ptr = lvgl_sys::",
            );
            out.append(self.name.as_str());
            out.append(
                "(parent.raw().as_mut(),); if let Some(raw) = core::ptr::NonNull::new(ptr) { let core = <crate::Obj as crate::Widget>::from_raw(raw).unwrap(); Ok(Self { core }) } else { Err(crate::LvError::InvalidReference) } } } pub fn new() -> crate::LvResult<Self> { let mut parent = crate::display::get_scr_act()?; Self::create(&mut parent) }",
            );
            return Ok(out);
        }
        // Translate the return type, skipping every shape outside the set.
        let rt: String = match &self.ret {
            None => String::from_str("()"),
            Some(t) => {
                let lit = t.literal_name.as_str();
                if str_eq(lit, "bool") || str_eq(lit, "u32") || str_eq(lit, "i32") || str_eq(
                    lit,
                    "u16",
                ) || str_eq(lit, "i16") || str_eq(lit, "u8") || str_eq(lit, "i8") {
                    t.literal_name.clone()
                } else {
                    return Err(WrapperError::Skip);
                }
            },
        };
        proof {
            assert(ret_code_spec(self@.ret) == Some(rt@));
        }
        // The receiver, then each remaining parameter, translated; a single
        // untranslatable parameter skips the whole method.
        let n = self.args.len();
        let mut decls: String;
        let mut ffi: String;
        if n == 0 {
            decls = String::new();
            ffi = String::new();
        } else {
            if self.args[0].typ.is_const() {
                decls = String::from_str("&self");
            } else {
                decls = String::from_str("&mut self");
            }
            ffi = String::from_str("self.core.raw().as_mut()");
        }
        proof {
            if n > 0 {
                assert(decls@ =~= receiver_spec(self@.args[0]) + decls_upto(self@.args, 1));
                assert(ffi@ =~= "self.core.raw().as_mut()"@ + ffi_upto(self@.args, 1));
            }
        }
        let mut i: usize = 1;
        while i < n
            invariant
                1 <= i <= n || (n == 0 && i == 1),
                n == self.args.len(),
                n == 0 ==> decls@ == Seq::<char>::empty() && ffi@ == Seq::<char>::empty(),
                n > 0 ==> decls@ == receiver_spec(self@.args[0]) + decls_upto(self@.args, i as int),
                n > 0 ==> ffi@ == "self.core.raw().as_mut()"@ + ffi_upto(self@.args, i as int),
                forall|j: int| 1 <= j < i ==> (#[trigger] arg_decl_spec(self@.args[j])) is Some,
            decreases n - i,
        {
            let a = &self.args[i];
            match a.code(self) {
                Ok(d) => {
                    decls.append(", ");
                    decls.append(d.as_str());
                    ffi.append(", ");
                    let u = a.get_value_usage();
                    ffi.append(u.as_str());
                    proof {
                        assert(decls@ =~= receiver_spec(self@.args[0]) + decls_upto(
                            self@.args,
                            i + 1,
                        ));
                        assert(ffi@ =~= "self.core.raw().as_mut()"@ + ffi_upto(
                            self@.args,
                            i + 1,
                        ));
                    }
                },
                Err(_) => {
                    proof {
                        assert(arg_decl_spec(self@.args[i as int]) is None);
                        assert(!args_ok(self@.args));
                        assert(method_code_spec(parent@.name, self@) is None);
                    }
                    return Err(WrapperError::Skip);
                },
            }
            i += 1;
        }
        // Assemble the wrapper method around the forwarded native call.
        let mut out = String::from_str("pub fn ");
        out.append(new_name.as_str());
        out.append("(");
        out.append(decls.as_str());
        out.append(") -> ");
        out.append(rt.as_str());
        out.append(" { unsafe { lvgl_sys::");
        out.append(self.name.as_str());
        out.append("(");
        out.append(ffi.as_str());
        out.append(")");
        if self.ret.is_none() {
            out.append(";");
        }
        out.append(" } }");
        proof {
            let fm = self@;
            let nn = strip_name(parent@.name, fm.name);
            assert(args_ok(fm.args));
            assert(decls@ == decl_list(fm.args));
            assert(ffi@ == ffi_list(fm.args));
            assert(out@ =~= "pub fn "@ + nn + "("@ + decl_list(fm.args) + ") -> "@ + rt@
                + " { unsafe { lvgl_sys::"@ + fm.name + "("@ + ffi_list(fm.args) + ")"@
                + semi_spec(fm.ret) + " } }"@);
            assert(method_code_spec(parent@.name, fm) == Some(out@));
        }
        Ok(out)
    }
}

/// The concatenation of the method fragments of the first `i` declarations
/// of a widget, skipped declarations contributing nothing.
pub open spec fn methods_upto(w: Seq<char>, ms: Seq<FuncModel>, i: int) -> Seq<char>
    decreases i,
{
    if i <= 0 {
        Seq::<char>::empty()
    } else {
        methods_upto(w, ms, i - 1) + match method_code_spec(w, ms[i - 1]) {
            Some(s) => s + " "@,
            None => Seq::<char>::empty(),
        }
    }
}

/// A widget's generated unit: its type declaration plus an implementation
/// scope holding every successfully generated method. The generic base
/// widget `obj` is never emitted: it yields `None`, a skip.
pub open spec fn widget_code_spec(w: WidgetModel) -> Option<Seq<char>> {
    if w.name == "obj"@ {
        None
    } else {
        Some(
            "define_object!("@ + pascal_of(w.name) + "); impl<'a> "@ + pascal_of(w.name)
                + "<'a> { "@ + methods_upto(w.name, w.methods, w.methods.len() as int) + "}"@,
        )
    }
}

impl LvWidget {
    /// The widget's display name, in capitalized-camel form.
    fn pascal_name(&self) -> (r: String)
        ensures
            r@ == pascal_of(self@.name),
    {
        to_pascal(self.name.as_str())
    }
}

impl Rusty for LvWidget {
    type Parent = ();

    /// Emits the widget's type declaration and every method that translates;
    /// the generic base widget `obj` signals a skip instead.
    #[verifier::loop_isolation(false)]
    fn code(&self, _parent: &Self::Parent) -> (r: WrapperResult<String>)
        ensures
            match r {
                Ok(s) => widget_code_spec(self@) == Some(s@),
                Err(e) => widget_code_spec(self@) is None && e == WrapperError::Skip,
            },
    {
        // The generic base type is never generated.
        if str_eq(self.name.as_str(), "obj") {
            return Err(WrapperError::Skip);
        }
        let pascal = self.pascal_name();
        let mut body = String::new();
        let n = self.methods.len();
        let mut i: usize = 0;
        while i < n
            invariant
                i <= n,
                n == self.methods.len(),
                body@ == methods_upto(self@.name, self@.methods, i as int),
            decreases n - i,
        {
            match self.methods[i].code(self) {
                Ok(s) => {
                    body.append(s.as_str());
                    body.append(" ");
                },
                Err(_) => {},
            }
            proof {
                assert(body@ =~= methods_upto(self@.name, self@.methods, i + 1));
            }
            i += 1;
        }
        let mut out = String::from_str("define_object!(");
        out.append(pascal.as_str());
        out.append("); impl<'a> ");
        out.append(pascal.as_str());
        out.append("<'a> { ");
        out.append(body.as_str());
        out.append("}");
        proof {
            assert(out@ =~= widget_code_spec(self@).unwrap());
        }
        Ok(out)
    }
}

/// A string-pointer parameter of a generated method is declared as the
/// read-only string-view type, and the expression that hands it to the
/// native call converts it to its raw pointer form.
pub proof fn lemma_string_parameter(a: ArgModel)
    requires
        is_str_spec(a.typ),
        arg_decl_spec(a) is Some,
    ensures
        arg_decl_spec(a) == Some(name_ident_spec(a.name) + ": "@ + "&cstr_core::CStr"@),
        value_usage_spec(a) == name_ident_spec(a.name) + ".as_ptr()"@,
{
}

/// For a declaration returning a boolean or a 32-, 16- or 8-bit integer
/// spelling, the emitted return type is that spelling exactly, and the
/// native call's value is the method's own result: the call statement gets
/// no closing semicolon and no extra wrapping.
pub proof fn lemma_scalar_return_direct(w: Seq<char>, f: FuncModel, t: Seq<char>)
    requires
        f.ret == Some(t),
        t == "bool"@ || t == "u32"@ || t == "i32"@ || t == "u16"@ || t == "i16"@ || t == "u8"@
            || t == "i8"@,
        strip_name(w, f.name) != "create"@,
        args_ok(f.args),
    ensures
        method_code_spec(w, f) == Some(
            "pub fn "@ + strip_name(w, f.name) + "("@ + decl_list(f.args) + ") -> "@ + t
                + " { unsafe { lvgl_sys::"@ + f.name + "("@ + ffi_list(f.args) + ")"@ + " } }"@,
        ),
{
    assert(ret_code_spec(f.ret) == Some(t));
    assert("pub fn "@ + strip_name(w, f.name) + "("@ + decl_list(f.args) + ") -> "@ + t
        + " { unsafe { lvgl_sys::"@ + f.name + "("@ + ffi_list(f.args) + ")"@ + semi_spec(f.ret)
        + " } }"@ =~= "pub fn "@ + strip_name(w, f.name) + "("@ + decl_list(f.args) + ") -> "@ + t
        + " { unsafe { lvgl_sys::"@ + f.name + "("@ + ffi_list(f.args) + ")"@ + " } }"@);
}

/// The constructor path is independent of the type-mapping table: any
/// declaration whose stripped name is exactly `create` yields the full
/// constructor fragment, whatever its parameters' types and however many
/// there are.
pub proof fn lemma_constructor_unconditional(w: Seq<char>, f: FuncModel)
    requires
        strip_name(w, f.name) == "create"@,
    ensures
        method_code_spec(w, f) == Some(ctor_code_spec(f.name)),
{
}

proof fn lemma_methods_upto_remove(w: Seq<char>, ms: Seq<FuncModel>, i: int, k: int)
    requires
        0 <= i < ms.len(),
        method_code_spec(w, ms[i]) is None,
        0 <= k <= ms.len() - 1,
    ensures
        k <= i ==> methods_upto(w, ms.remove(i), k) == methods_upto(w, ms, k),
        k > i ==> methods_upto(w, ms.remove(i), k) == methods_upto(w, ms, k + 1),
    decreases k,
{
    ms.remove_ensures(i);
    if k > 0 {
        lemma_methods_upto_remove(w, ms, i, k - 1);
        if k - 1 < i {
            assert(ms.remove(i)[k - 1] == ms[k - 1]);
        } else if k - 1 == i {
            assert(ms.remove(i)[k - 1] == ms[k]);
            assert(methods_upto(w, ms, k) =~= methods_upto(w, ms, k - 1));
            assert(methods_upto(w, ms.remove(i), k) =~= methods_upto(w, ms, k + 1));
        } else {
            assert(ms.remove(i)[k - 1] == ms[k]);
        }
    }
}

/// A declaration whose fragment cannot be generated is omitted in isolation:
/// the widget's generated unit equals the one generated without that
/// declaration, every other method still emitted in place.
pub proof fn lemma_skip_isolated(w: WidgetModel, i: int)
    requires
        0 <= i < w.methods.len(),
        method_code_spec(w.name, w.methods[i]) is None,
    ensures
        widget_code_spec(w) == widget_code_spec(
            WidgetModel { name: w.name, methods: w.methods.remove(i) },
        ),
{
    if w.name != "obj"@ {
        if w.methods.len() == 1 {
            assert(w.methods.remove(0) =~= Seq::<FuncModel>::empty());
            assert(methods_upto(w.name, w.methods, 0) == Seq::<char>::empty());
            assert(methods_upto(w.name, w.methods.remove(0), 0) == Seq::<char>::empty());
            assert(methods_upto(w.name, w.methods, 1) =~= methods_upto(
                w.name,
                w.methods.remove(0),
                0,
            ));
        } else {
            lemma_methods_upto_remove(w.name, w.methods, i, w.methods.len() - 1);
            if i == w.methods.len() - 1 {
                assert(methods_upto(w.name, w.methods, w.methods.len() as int) =~= methods_upto(
                    w.name,
                    w.methods,
                    w.methods.len() - 1,
                ));
            }
        }
        assert(methods_upto(w.name, w.methods, w.methods.len() as int) == methods_upto(
            w.name,
            w.methods.remove(i),
            w.methods.len() - 1,
        ));
    }
}

impl Rusty for LvArg {
    type Parent = LvFunc;

    /// The `name: type` fragment this argument contributes to a generated
    /// signature, skipped when its type has no table entry.
    fn code(&self, _parent: &Self::Parent) -> (r: WrapperResult<String>)
        ensures
            match r {
                Ok(s) => arg_decl_spec(self@) == Some(s@),
                Err(e) => arg_decl_spec(self@) is None && e == WrapperError::Skip,
            },
    {
        match self.typ.code(self) {
            Ok(t) => {
                let mut s = self.get_name_ident();
                s.append(": ");
                s.append(t.as_str());
                Ok(s)
            },
            Err(e) => Err(e),
        }
    }
}

} // verus!
