//! The orchestrator: loads the declarations out of a block of source text,
//! keeps the ones the tracked library owns, extracts the widgets, and
//! exposes both lists.

use vstd::prelude::*;

use crate::extract::{
    funcs_view, methods_for, names_upto, strs_view, vec_contains_str, widget_name_of,
    widget_names_spec, widgets_spec, widgets_view,
};
use crate::foreign::{parse_foreign_fns, parsed_decls};
use crate::model::{FuncModel, LvFunc, LvWidget, WidgetModel};
use crate::strutil::starts_with_str;
use crate::{lib_prefix, spec_lib_prefix, CGResult, CodeGenError};

verus! {

/// Mathematical model of a loaded batch: the retained declarations and the
/// widgets inferred from them.
pub ghost struct CodeGenModel {
    pub functions: Seq<FuncModel>,
    pub widgets: Seq<WidgetModel>,
}

/// The declarations among the first `i` whose name carries the tracked
/// library's prefix, in order.
pub open spec fn keep_upto(fs: Seq<FuncModel>, i: int) -> Seq<FuncModel>
    decreases i,
{
    if i <= 0 {
        Seq::<FuncModel>::empty()
    } else {
        let p = keep_upto(fs, i - 1);
        if spec_lib_prefix().is_prefix_of(fs[i - 1].name) {
            p.push(fs[i - 1])
        } else {
            p
        }
    }
}

/// The declarations the loader retains: those with the library's prefix.
pub open spec fn lv_decls(fs: Seq<FuncModel>) -> Seq<FuncModel> {
    keep_upto(fs, fs.len() as int)
}

/// What the whole pipeline makes of a block of input text: `None` exactly on
/// malformed input, otherwise the retained declarations and their widgets.
pub open spec fn pipeline_spec(code: Seq<char>) -> Option<CodeGenModel> {
    match parsed_decls(code) {
        None => None,
        Some(ds) => Some(
            CodeGenModel { functions: lv_decls(ds), widgets: widgets_spec(lv_decls(ds)) },
        ),
    }
}

/// Re-running the whole pipeline on identical input text yields an identical
/// model, and for each widget a byte-identical generated unit: every step,
/// parsing included, is a function of the input text alone.
pub proof fn lemma_pipeline_deterministic(
    code1: Seq<char>,
    code2: Seq<char>,
    m1: CodeGenModel,
    m2: CodeGenModel,
)
    requires
        code1 == code2,
        pipeline_spec(code1) == Some(m1),
        pipeline_spec(code2) == Some(m2),
    ensures
        m1 == m2,
        forall|j: int|
            0 <= j < m1.widgets.len() ==> #[trigger] crate::emit::widget_code_spec(m1.widgets[j])
                == crate::emit::widget_code_spec(m2.widgets[j]),
{
}

/// The loaded batch: every retained declaration and the widgets inferred
/// from them.
pub struct CodeGen {
    functions: Vec<LvFunc>,
    widgets: Vec<LvWidget>,
}

impl View for CodeGen {
    type V = CodeGenModel;

    closed spec fn view(&self) -> CodeGenModel {
        CodeGenModel {
            functions: funcs_view(self.functions@),
            widgets: widgets_view(self.widgets@),
        }
    }
}

impl CodeGen {
    /// Runs the pipeline over a block of declaration text: loads the
    /// declarations, then extracts the widgets. Fails exactly when the text
    /// is malformed, with no partial result.
    pub fn from(code: &str) -> (r: CGResult<Self>)
        ensures
            match r {
                Ok(cg) => pipeline_spec(code@) == Some(cg@),
                Err(e) => pipeline_spec(code@) is None && e == CodeGenError::ParseFailure,
            },
    {
        let functions = match Self::load_func_defs(code) {
            Ok(f) => f,
            Err(e) => {
                return Err(e);
            },
        };
        let widgets = match Self::extract_widgets(functions.as_slice()) {
            Ok(w) => w,
            Err(e) => {
                return Err(e);
            },
        };
        Ok(Self { functions, widgets })
    }

    /// The inferred widget list.
    pub fn get_widgets(&self) -> (r: &Vec<LvWidget>)
        ensures
            widgets_view(r@) == self@.widgets,
    {
        &self.widgets
    }

    /// Groups every qualifying declaration into the widget it belongs to:
    /// one widget per discovered name, in discovery order, its methods in
    /// declaration order. Pure grouping, it never fails.
    #[verifier::loop_isolation(false)]
    pub(crate) fn extract_widgets(functions: &[LvFunc]) -> (r: CGResult<Vec<LvWidget>>)
        ensures
            match r {
                Ok(v) => widgets_view(v@) == widgets_spec(funcs_view(functions@)),
                Err(e) => false,
            },
    {
        let ghost fsv = funcs_view(functions@);
        let names = Self::get_widget_names(functions);
        let mut widgets: Vec<LvWidget> = Vec::new();
        let mut i: usize = 0;
        while i < names.len()
            invariant
                i <= names.len(),
                widgets@.len() == i,
                forall|j: int| 0 <= j < i ==> #[trigger] widgets@[j]@ == widgets_spec(fsv)[j],
            decreases names.len() - i,
        {
            let mut templ = String::from_str(lib_prefix());
            templ.append(names[i].as_str());
            templ.append("_");
            let mut methods: Vec<LvFunc> = Vec::new();
            let mut k: usize = 0;
            while k < functions.len()
                invariant
                    k <= functions.len(),
                    i < names.len(),
                    templ@ == spec_lib_prefix() + names@[i as int]@ + "_"@,
                    funcs_view(methods@) == methods_for(fsv, names@[i as int]@, k as int),
                decreases functions.len() - k,
            {
                let f = &functions[k];
                if starts_with_str(f.name.as_str(), templ.as_str()) && f.is_method() {
                    methods.push(f.clone());
                }
                proof {
                    assert(funcs_view(methods@) =~= methods_for(
                        fsv,
                        names@[i as int]@,
                        k + 1,
                    ));
                }
                k += 1;
            }
            let w = LvWidget::new(names[i].clone(), methods);
            proof {
                assert(strs_view(names@)[i as int] == names@[i as int]@);
                assert(w@ == widgets_spec(fsv)[i as int]);
            }
            widgets.push(w);
            i += 1;
        }
        proof {
            assert(widgets_view(widgets@) =~= widgets_spec(fsv));
        }
        Ok(widgets)
    }

    /// Scans the declarations for the `<prefix><name>_create` pattern with
    /// exactly one parameter; each unique capture, in order of first
    /// appearance, is a widget name.
    #[verifier::loop_isolation(false)]
    pub fn get_widget_names(functions: &[LvFunc]) -> (r: Vec<String>)
        ensures
            strs_view(r@) == widget_names_spec(funcs_view(functions@)),
    {
        let ghost fsv = funcs_view(functions@);
        let mut names: Vec<String> = Vec::new();
        let mut i: usize = 0;
        while i < functions.len()
            invariant
                i <= functions.len(),
                strs_view(names@) == names_upto(fsv, i as int),
            decreases functions.len() - i,
        {
            let f = &functions[i];
            if f.args.len() == 1 {
                match widget_name_of(f.name.as_str()) {
                    Some(nm) => {
                        if !vec_contains_str(&names, nm.as_str()) {
                            names.push(nm);
                        }
                    },
                    None => {},
                }
            }
            proof {
                assert(strs_view(names@) =~= names_upto(fsv, i + 1));
            }
            i += 1;
        }
        names
    }

    /// Parses a block of declaration text and keeps, in order, every foreign
    /// function whose name carries the tracked library's prefix. Malformed
    /// input is a fatal parse failure with no partial result.
    #[verifier::loop_isolation(false)]
    pub fn load_func_defs(bindgen_code: &str) -> (r: CGResult<Vec<LvFunc>>)
        ensures
            match r {
                Ok(v) => parsed_decls(bindgen_code@) is Some && funcs_view(v@) == lv_decls(
                    parsed_decls(bindgen_code@).unwrap(),
                ),
                Err(e) => parsed_decls(bindgen_code@) is None && e == CodeGenError::ParseFailure,
            },
    {
        let all = match parse_foreign_fns(bindgen_code) {
            Some(v) => v,
            None => {
                return Err(CodeGenError::ParseFailure);
            },
        };
        let ghost av = funcs_view(all@);
        let mut kept: Vec<LvFunc> = Vec::new();
        let mut i: usize = 0;
        while i < all.len()
            invariant
                i <= all.len(),
                funcs_view(kept@) == keep_upto(av, i as int),
            decreases all.len() - i,
        {
            let f = &all[i];
            if starts_with_str(f.name.as_str(), lib_prefix()) {
                kept.push(f.clone());
            }
            proof {
                assert(funcs_view(kept@) =~= keep_upto(av, i + 1));
            }
            i += 1;
        }
        proof {
            assert(funcs_view(kept@) == lv_decls(av));
        }
        Ok(kept)
    }

    /// The names of every loaded declaration, in order.
    #[verifier::loop_isolation(false)]
    pub fn get_function_names(&self) -> (r: CGResult<Vec<String>>)
        ensures
            match r {
                Ok(v) => strs_view(v@) == self@.functions.map_values(|f: FuncModel| f.name),
                Err(e) => false,
            },
    {
        let mut names: Vec<String> = Vec::new();
        let mut i: usize = 0;
        while i < self.functions.len()
            invariant
                i <= self.functions.len(),
                names@.len() == i,
                forall|j: int| 0 <= j < i ==> #[trigger] names@[j]@ == self@.functions[j].name,
            decreases self.functions.len() - i,
        {
            names.push(self.functions[i].name.clone());
            i += 1;
        }
        proof {
            assert(strs_view(names@) =~= self@.functions.map_values(|f: FuncModel| f.name));
        }
        Ok(names)
    }
}

} // verus!
