//! Arguments of the `kv-inspect` command.
use vstd::prelude::*;


use crate::cli::{
    bytes_flag, has_help_flag, missing_value, next_value, nonzero_u64_flag, parse_bytes,
    parse_nonzero_u64, parse_u64, starts_with_dash, u64_flag, view_matches, wants_help, ArgError,
    Parsed,
};
use crate::llm_backend::{opt_str_view, strs_view};
use crate::text::str_eq;


verus! {

pub struct KvInspectArgs {
    /// `--help` or `-h` was given: nothing else is read.
    pub help: bool,
    pub model: Option<String>,
    pub context_length: Option<u64>,
    pub precision: Option<String>,
    pub json: bool,
    pub show_layers: bool,
    pub show_chart: bool,
    pub show_context_chart: bool,
    pub show_layer_chart: bool,
    pub available_ram: Option<u64>,
    pub auto_ram: bool,
    pub profile_name: Option<String>,
    pub profile_dir: Option<String>,
    pub context_step: u64,
}

pub ghost struct KvInspectArgsView {
    pub help: bool,
    pub model: Option<Seq<char>>,
    pub context_length: Option<u64>,
    pub precision: Option<Seq<char>>,
    pub json: bool,
    pub show_layers: bool,
    pub show_chart: bool,
    pub show_context_chart: bool,
    pub show_layer_chart: bool,
    pub available_ram: Option<u64>,
    pub auto_ram: bool,
    pub profile_name: Option<Seq<char>>,
    pub profile_dir: Option<Seq<char>>,
    pub context_step: u64,
}

impl View for KvInspectArgs {
    type V = KvInspectArgsView;

    open spec fn view(&self) -> KvInspectArgsView {
        KvInspectArgsView {
            help: self.help,
            model: opt_str_view(self.model),
            context_length: self.context_length,
            precision: opt_str_view(self.precision),
            json: self.json,
            show_layers: self.show_layers,
            show_chart: self.show_chart,
            show_context_chart: self.show_context_chart,
            show_layer_chart: self.show_layer_chart,
            available_ram: self.available_ram,
            auto_ram: self.auto_ram,
            profile_name: opt_str_view(self.profile_name),
            profile_dir: opt_str_view(self.profile_dir),
            context_step: self.context_step,
        }
    }
}

/// The options before any argument is read.
pub open spec fn kv_inspect_args_initial() -> KvInspectArgsView {
    KvInspectArgsView {
        help: false,
        model: None,
        context_length: None,
        precision: None,
        json: false,
        show_layers: false,
        show_chart: false,
        show_context_chart: false,
        show_layer_chart: false,
        available_ram: None,
        auto_ram: false,
        profile_name: None,
        profile_dir: None,
        context_step: 512,
    }
}

/// The options that `args[i..]` give, starting from `st`.
pub open spec fn kv_inspect_args_from(args: Seq<Seq<char>>, i: int, st: KvInspectArgsView) -> Parsed<KvInspectArgsView>
    decreases args.len() - i,
{
    if i < 0 || i >= args.len() {
        Parsed::Value(st)
    } else {
        let a = args[i];
        if a == "--model"@ {
            if i + 1 < args.len() {
                kv_inspect_args_from(args, i + 2, KvInspectArgsView { model: Some(args[i + 1]), ..st })
            } else {
                Parsed::Invalid(missing_value("--model"@))
            }
        } else if a == "--context-length"@ {
            if i + 1 < args.len() {
                match u64_flag("--context-length"@, args[i + 1]) {
                    Parsed::Value(n) => kv_inspect_args_from(args, i + 2, KvInspectArgsView { context_length: Some(n), ..st }),
                    Parsed::Invalid(m) => Parsed::Invalid(m),
                    Parsed::Overflow => Parsed::Overflow,
                }
            } else {
                Parsed::Invalid(missing_value("--context-length"@))
            }
        } else if a == "--precision"@ {
            if i + 1 < args.len() {
                kv_inspect_args_from(args, i + 2, KvInspectArgsView { precision: Some(args[i + 1]), ..st })
            } else {
                Parsed::Invalid(missing_value("--precision"@))
            }
        } else if a == "--json"@ {
            kv_inspect_args_from(args, i + 1, KvInspectArgsView { json: true, ..st })
        } else if a == "--layers"@ {
            kv_inspect_args_from(args, i + 1, KvInspectArgsView { show_layers: true, ..st })
        } else if a == "--chart"@ {
            kv_inspect_args_from(args, i + 1, KvInspectArgsView { show_chart: true, ..st })
        } else if a == "--context-chart"@ {
            kv_inspect_args_from(args, i + 1, KvInspectArgsView { show_context_chart: true, ..st })
        } else if a == "--layer-chart"@ {
            kv_inspect_args_from(args, i + 1, KvInspectArgsView { show_layer_chart: true, ..st })
        } else if a == "--profile"@ {
            if i + 1 < args.len() {
                kv_inspect_args_from(args, i + 2, KvInspectArgsView { profile_name: Some(args[i + 1]), ..st })
            } else {
                Parsed::Invalid(missing_value("--profile"@))
            }
        } else if a == "--profile-dir"@ {
            if i + 1 < args.len() {
                kv_inspect_args_from(args, i + 2, KvInspectArgsView { profile_dir: Some(args[i + 1]), ..st })
            } else {
                Parsed::Invalid(missing_value("--profile-dir"@))
            }
        } else if a == "--context-step"@ {
            if i + 1 < args.len() {
                match nonzero_u64_flag("--context-step"@, args[i + 1]) {
                    Parsed::Value(n) => kv_inspect_args_from(args, i + 2, KvInspectArgsView { context_step: n, ..st }),
                    Parsed::Invalid(m) => Parsed::Invalid(m),
                    Parsed::Overflow => Parsed::Overflow,
                }
            } else {
                Parsed::Invalid(missing_value("--context-step"@))
            }
        } else if a == "--available-ram"@ {
            if i + 1 < args.len() {
                match bytes_flag("--available-ram"@, args[i + 1], false) {
                    Parsed::Value(n) => kv_inspect_args_from(args, i + 2, KvInspectArgsView { available_ram: Some(n), ..st }),
                    Parsed::Invalid(m) => Parsed::Invalid(m),
                    Parsed::Overflow => Parsed::Overflow,
                }
            } else {
                Parsed::Invalid(missing_value("--available-ram"@))
            }
        } else if a == "--auto-ram"@ {
            kv_inspect_args_from(args, i + 1, KvInspectArgsView { auto_ram: true, ..st })
        } else if a.len() > 0 && a[0] == '-' {
            Parsed::Invalid("Unknown flag for kv-inspect: "@ + a + ""@)
        } else {
            kv_inspect_args_from(args, i + 1, st)
        }
    }
}

/// The options that the arguments give: with `--help` or `-h` anywhere, only
/// `help`; otherwise read from left to right.
pub open spec fn kv_inspect_args(args: Seq<Seq<char>>) -> Parsed<KvInspectArgsView> {
    if wants_help(args) {
        Parsed::Value(KvInspectArgsView { help: true, ..kv_inspect_args_initial() })
    } else {
        kv_inspect_args_from(args, 0, kv_inspect_args_initial())
    }
}

fn parse_kv_inspect_args_initial() -> (r: KvInspectArgs)
    ensures
        r@ == kv_inspect_args_initial(),
{
    let r = KvInspectArgs {
        help: false,
        model: None,
        context_length: None,
        precision: None,
        json: false,
        show_layers: false,
        show_chart: false,
        show_context_chart: false,
        show_layer_chart: false,
        available_ram: None,
        auto_ram: false,
        profile_name: None,
        profile_dir: None,
        context_step: 512,
    };
    r
}

#[verifier::rlimit(40)]
fn parse_kv_inspect_args_step(args: &Vec<String>, i: usize, st: &mut KvInspectArgs) -> (r: Result<usize, ArgError>)
    requires
        i < args@.len(),
    ensures
        match r {
            Ok(j) => i < j <= args@.len() && kv_inspect_args_from(strs_view(args@), i as int, old(st)@) == kv_inspect_args_from(strs_view(args@), j as int, final(st)@),
            Err(e) => view_matches(Err::<KvInspectArgs, ArgError>(e), kv_inspect_args_from(strs_view(args@), i as int, old(st)@)),
        },
{
    let ghost av = strs_view(args@);
    let _n = args.len();
    let a = args[i].as_str();
    assert(av[i as int] == a@);
    if str_eq(a, "--model") {
        let v = match next_value("--model", args, i + 1) {
            Ok(v) => v,
            Err(e) => {
                return Err(e);
            },
        };
        assert(av[i + 1] == v@);
        st.model = Some(v);
        Ok(i + 2)
    } else if str_eq(a, "--context-length") {
        let v = match next_value("--context-length", args, i + 1) {
            Ok(v) => v,
            Err(e) => {
                return Err(e);
            },
        };
        assert(av[i + 1] == v@);
        let n = match parse_u64("--context-length", v.as_str()) {
            Ok(n) => n,
            Err(e) => {
                return Err(e);
            },
        };
        st.context_length = Some(n);
        Ok(i + 2)
    } else if str_eq(a, "--precision") {
        let v = match next_value("--precision", args, i + 1) {
            Ok(v) => v,
            Err(e) => {
                return Err(e);
            },
        };
        assert(av[i + 1] == v@);
        st.precision = Some(v);
        Ok(i + 2)
    } else if str_eq(a, "--json") {
        st.json = true;
        Ok(i + 1)
    } else if str_eq(a, "--layers") {
        st.show_layers = true;
        Ok(i + 1)
    } else if str_eq(a, "--chart") {
        st.show_chart = true;
        Ok(i + 1)
    } else if str_eq(a, "--context-chart") {
        st.show_context_chart = true;
        Ok(i + 1)
    } else if str_eq(a, "--layer-chart") {
        st.show_layer_chart = true;
        Ok(i + 1)
    } else if str_eq(a, "--profile") {
        let v = match next_value("--profile", args, i + 1) {
            Ok(v) => v,
            Err(e) => {
                return Err(e);
            },
        };
        assert(av[i + 1] == v@);
        st.profile_name = Some(v);
        Ok(i + 2)
    } else if str_eq(a, "--profile-dir") {
        let v = match next_value("--profile-dir", args, i + 1) {
            Ok(v) => v,
            Err(e) => {
                return Err(e);
            },
        };
        assert(av[i + 1] == v@);
        st.profile_dir = Some(v);
        Ok(i + 2)
    } else if str_eq(a, "--context-step") {
        let v = match next_value("--context-step", args, i + 1) {
            Ok(v) => v,
            Err(e) => {
                return Err(e);
            },
        };
        assert(av[i + 1] == v@);
        let n = match parse_nonzero_u64("--context-step", v.as_str()) {
            Ok(n) => n,
            Err(e) => {
                return Err(e);
            },
        };
        st.context_step = n;
        Ok(i + 2)
    } else if str_eq(a, "--available-ram") {
        let v = match next_value("--available-ram", args, i + 1) {
            Ok(v) => v,
            Err(e) => {
                return Err(e);
            },
        };
        assert(av[i + 1] == v@);
        let n = match parse_bytes("--available-ram", v.as_str(), false) {
            Ok(n) => n,
            Err(e) => {
                return Err(e);
            },
        };
        st.available_ram = Some(n);
        Ok(i + 2)
    } else if str_eq(a, "--auto-ram") {
        st.auto_ram = true;
        Ok(i + 1)
    } else if starts_with_dash(a) {
        let mut m = String::from_str("Unknown flag for kv-inspect: ");
        m.append(a);
        m.append("");
        Err(ArgError::Message(m))
    } else {
        Ok(i + 1)
    }
}

pub fn parse_kv_inspect_args(args: &Vec<String>) -> (r: Result<KvInspectArgs, ArgError>)
    ensures
        view_matches(r, kv_inspect_args(strs_view(args@))),
{
    let ghost av = strs_view(args@);
    let mut st = parse_kv_inspect_args_initial();
    if has_help_flag(args) {
        st.help = true;
        return Ok(st);
    }
    let mut i: usize = 0;
    while i < args.len()
        invariant
            i <= args@.len(),
            av == strs_view(args@),
            kv_inspect_args(av) == kv_inspect_args_from(av, i as int, st@),
        decreases args@.len() - i,
    {
        i = match parse_kv_inspect_args_step(args, i, &mut st) {
            Ok(j) => j,
            Err(e) => {
                return Err(e);
            },
        };
    }
    Ok(st)
}

} // verus!

