//! The `config` command: its subcommands and flags, which directory entries are
//! profiles, how profiles are listed, and the report of a validation run.
use vstd::prelude::*;

use crate::cli::{has_help_flag, missing_value, wants_help};
use crate::json::{json_field, pop_trailing_comma, push_json_field};
use crate::llm_backend::{opt_str_view, strs_view};
use crate::profile::{Profile, ProfileView};
use crate::text::{concat2, concat3, decimal, ends_with, push_char, push_decimal, str_ends_with, str_eq};

verus! {

/// What `config` was asked to do.
pub enum ConfigCommand {
    /// `--help` or `-h` was given.
    Help,
    /// List the profile files, with their values when `verbose`.
    Show { verbose: bool },
    /// Show where the profiles live.
    Edit,
    /// Copy the project's profiles to the user's directory, overwriting when `force`.
    Init { force: bool },
    /// Validate the profiles of one directory (`dir`), or of the user's and the
    /// project's directories.
    Validate { json: bool, dir: Option<String>, use_user: bool, use_project: bool },
}

pub ghost enum ConfigCommandView {
    Help,
    Show { verbose: bool },
    Edit,
    Init { force: bool },
    Validate { json: bool, dir: Option<Seq<char>>, use_user: bool, use_project: bool },
}

impl View for ConfigCommand {
    type V = ConfigCommandView;

    open spec fn view(&self) -> ConfigCommandView {
        match self {
            ConfigCommand::Help => ConfigCommandView::Help,
            ConfigCommand::Show { verbose } => ConfigCommandView::Show { verbose: *verbose },
            ConfigCommand::Edit => ConfigCommandView::Edit,
            ConfigCommand::Init { force } => ConfigCommandView::Init { force: *force },
            ConfigCommand::Validate { json, dir, use_user, use_project } => ConfigCommandView::Validate {
                json: *json,
                dir: opt_str_view(*dir),
                use_user: *use_user,
                use_project: *use_project,
            },
        }
    }
}

pub open spec fn unknown_flag(subcommand: Seq<char>, arg: Seq<char>) -> Seq<char> {
    "Unknown flag for config "@ + subcommand + ": "@ + arg
}

/// A subcommand that takes one switch: whether `args[i..]` hold it (every argument
/// must be that switch), or the message for the first other argument.
pub open spec fn switch_from(args: Seq<Seq<char>>, i: int, switch: Seq<char>, subcommand: Seq<char>) -> Result<bool, Seq<char>>
    decreases args.len() - i,
{
    if i < 0 || i >= args.len() {
        Ok(false)
    } else if args[i] == switch {
        match switch_from(args, i + 1, switch, subcommand) {
            Ok(_) => Ok(true),
            Err(e) => Err(e),
        }
    } else {
        Err(unknown_flag(subcommand, args[i]))
    }
}

/// The flags of `config validate` read so far.
pub ghost struct ValidateFlags {
    pub json: bool,
    pub use_user: bool,
    pub use_project: bool,
    pub dir: Option<Seq<char>>,
}

/// The flags of `config validate` in `args[i..]`, starting from `st`.
pub open spec fn validate_flags_from(args: Seq<Seq<char>>, i: int, st: ValidateFlags) -> Result<ValidateFlags, Seq<char>>
    decreases args.len() - i,
{
    if i < 0 || i >= args.len() {
        Ok(st)
    } else {
        let a = args[i];
        if a == "--json"@ {
            validate_flags_from(args, i + 1, ValidateFlags { json: true, ..st })
        } else if a == "--user"@ {
            validate_flags_from(args, i + 1, ValidateFlags { use_user: true, ..st })
        } else if a == "--project"@ {
            validate_flags_from(args, i + 1, ValidateFlags { use_project: true, ..st })
        } else if a == "--dir"@ {
            if i + 1 < args.len() {
                validate_flags_from(args, i + 2, ValidateFlags { dir: Some(args[i + 1]), ..st })
            } else {
                Err(missing_value("--dir"@))
            }
        } else {
            Err(unknown_flag("validate"@, a))
        }
    }
}

/// `config validate`: `--dir` excludes `--user` and `--project`; with none of the
/// three, both the user's and the project's profiles are validated.
pub open spec fn validate_command(args: Seq<Seq<char>>) -> Result<ConfigCommandView, Seq<char>> {
    match validate_flags_from(
        args,
        0,
        ValidateFlags { json: false, use_user: false, use_project: false, dir: None },
    ) {
        Err(e) => Err(e),
        Ok(f) => if f.dir is Some && (f.use_user || f.use_project) {
            Err("Do not combine --dir with --user/--project"@)
        } else if f.dir is None && !f.use_user && !f.use_project {
            Ok(ConfigCommandView::Validate { json: f.json, dir: None, use_user: true, use_project: true })
        } else {
            Ok(
                ConfigCommandView::Validate {
                    json: f.json,
                    dir: f.dir,
                    use_user: f.use_user,
                    use_project: f.use_project,
                },
            )
        },
    }
}

/// What the arguments of `config` ask for: help wherever it is asked for; else the
/// subcommand (`show` when there is none) with the arguments after it.
pub open spec fn config_command_spec(args: Seq<Seq<char>>) -> Result<ConfigCommandView, Seq<char>> {
    if wants_help(args) {
        Ok(ConfigCommandView::Help)
    } else {
        let sub = if args.len() == 0 {
            "show"@
        } else {
            args[0]
        };
        let rest = if args.len() == 0 {
            Seq::empty()
        } else {
            args.drop_first()
        };
        if sub == "show"@ {
            match switch_from(rest, 0, "--verbose"@, "show"@) {
                Ok(v) => Ok(ConfigCommandView::Show { verbose: v }),
                Err(e) => Err(e),
            }
        } else if sub == "edit"@ {
            Ok(ConfigCommandView::Edit)
        } else if sub == "init"@ {
            match switch_from(rest, 0, "--force"@, "init"@) {
                Ok(f) => Ok(ConfigCommandView::Init { force: f }),
                Err(e) => Err(e),
            }
        } else if sub == "validate"@ {
            validate_command(rest)
        } else {
            Err("Unknown config subcommand: "@ + sub)
        }
    }
}

/// Whether every argument from `from` on is `switch`; else the message for the
/// first that is not.
fn read_switch(args: &Vec<String>, from: usize, switch: &str, subcommand: &str) -> (r: Result<bool, String>)
    requires
        from <= args@.len(),
    ensures
        match switch_from(strs_view(args@).subrange(from as int, args@.len() as int), 0, switch@, subcommand@) {
            Ok(b) => r == Ok::<bool, String>(b),
            Err(m) => r matches Err(e) && e@ == m,
        },
{
    let ghost av = strs_view(args@);
    let ghost rest = av.subrange(from as int, av.len() as int);
    let mut i = from;
    while i < args.len()
        invariant
            from <= i <= args@.len(),
            av == strs_view(args@),
            rest == av.subrange(from as int, av.len() as int),
            forall|k: int| from <= k < i ==> av[k] == switch@,
        decreases args@.len() - i,
    {
        if !str_eq(args[i].as_str(), switch) {
            proof {
                lemma_switch_first_other(rest, switch@, subcommand@, (i - from) as int);
            }
            assert(rest[i - from] == args@[i as int]@);
            let mut m = concat3("Unknown flag for config ", subcommand, ": ");
            m.append(args[i].as_str());
            return Err(m);
        }
        i = i + 1;
    }
    proof {
        lemma_switch_all(rest, switch@, subcommand@, 0);
    }
    Ok(from < args.len())
}

proof fn lemma_switch_first_other(rest: Seq<Seq<char>>, switch: Seq<char>, subcommand: Seq<char>, j: int)
    requires
        0 <= j < rest.len(),
        rest[j] != switch,
        forall|k: int| 0 <= k < j ==> rest[k] == switch,
    ensures
        switch_from(rest, 0, switch, subcommand) == Err::<bool, Seq<char>>(unknown_flag(subcommand, rest[j])),
{
    lemma_switch_first_other_from(rest, switch, subcommand, j, 0);
}

proof fn lemma_switch_first_other_from(rest: Seq<Seq<char>>, switch: Seq<char>, subcommand: Seq<char>, j: int, i: int)
    requires
        0 <= i <= j < rest.len(),
        rest[j] != switch,
        forall|k: int| i <= k < j ==> rest[k] == switch,
    ensures
        switch_from(rest, i, switch, subcommand) == Err::<bool, Seq<char>>(unknown_flag(subcommand, rest[j])),
    decreases j - i,
{
    if i < j {
        lemma_switch_first_other_from(rest, switch, subcommand, j, i + 1);
    }
}

proof fn lemma_switch_all(rest: Seq<Seq<char>>, switch: Seq<char>, subcommand: Seq<char>, i: int)
    requires
        0 <= i <= rest.len(),
        forall|k: int| i <= k < rest.len() ==> rest[k] == switch,
    ensures
        switch_from(rest, i, switch, subcommand) == Ok::<bool, Seq<char>>(i < rest.len()),
    decreases rest.len() - i,
{
    if i < rest.len() {
        lemma_switch_all(rest, switch, subcommand, i + 1);
    }
}

/// Reads the flags of `config validate` from `args[from..]`.
fn read_validate(args: &Vec<String>, from: usize) -> (r: Result<ConfigCommand, String>)
    requires
        from <= args@.len(),
    ensures
        match validate_command(strs_view(args@).subrange(from as int, args@.len() as int)) {
            Ok(c) => r matches Ok(x) && x@ == c,
            Err(m) => r matches Err(e) && e@ == m,
        },
{
    let ghost av = strs_view(args@);
    let ghost rest = av.subrange(from as int, av.len() as int);
    let mut json = false;
    let mut use_user = false;
    let mut use_project = false;
    let mut dir: Option<String> = None;
    let mut i = from;
    while i < args.len()
        invariant
            from <= i <= args@.len(),
            av == strs_view(args@),
            rest == av.subrange(from as int, av.len() as int),
            validate_flags_from(
                rest,
                0,
                ValidateFlags { json: false, use_user: false, use_project: false, dir: None },
            ) == validate_flags_from(
                rest,
                i - from,
                ValidateFlags { json, use_user, use_project, dir: opt_str_view(dir) },
            ),
        decreases args@.len() - i,
    {
        let a = args[i].as_str();
        assert(rest[i - from] == a@);
        if str_eq(a, "--json") {
            json = true;
            i = i + 1;
        } else if str_eq(a, "--user") {
            use_user = true;
            i = i + 1;
        } else if str_eq(a, "--project") {
            use_project = true;
            i = i + 1;
        } else if str_eq(a, "--dir") {
            if i + 1 < args.len() {
                assert(rest[i + 1 - from] == args@[i + 1]@);
                dir = Some(args[i + 1].clone());
                i = i + 2;
            } else {
                return Err(concat2("Missing value for ", "--dir"));
            }
        } else {
            let mut m = concat3("Unknown flag for config ", "validate", ": ");
            m.append(a);
            return Err(m);
        }
    }
    if dir.is_some() && (use_user || use_project) {
        return Err(String::from_str("Do not combine --dir with --user/--project"));
    }
    if dir.is_none() && !use_user && !use_project {
        use_user = true;
        use_project = true;
    }
    Ok(ConfigCommand::Validate { json, dir, use_user, use_project })
}

/// Reads the arguments of `config`.
pub fn parse_config_args(args: &Vec<String>) -> (r: Result<ConfigCommand, String>)
    ensures
        match config_command_spec(strs_view(args@)) {
            Ok(c) => r matches Ok(x) && x@ == c,
            Err(m) => r matches Err(e) && e@ == m,
        },
{
    let ghost av = strs_view(args@);
    if has_help_flag(args) {
        return Ok(ConfigCommand::Help);
    }
    let from: usize = if args.len() == 0 {
        0
    } else {
        1
    };
    proof {
        if av.len() > 0 {
            assert(av.subrange(1, av.len() as int) =~= av.drop_first());
        } else {
            assert(av.subrange(0, 0) =~= Seq::<Seq<char>>::empty());
        }
    }
    let sub: &str = if args.len() == 0 {
        "show"
    } else {
        args[0].as_str()
    };
    if str_eq(sub, "show") {
        match read_switch(args, from, "--verbose", "show") {
            Ok(v) => Ok(ConfigCommand::Show { verbose: v }),
            Err(e) => Err(e),
        }
    } else if str_eq(sub, "edit") {
        Ok(ConfigCommand::Edit)
    } else if str_eq(sub, "init") {
        match read_switch(args, from, "--force", "init") {
            Ok(f) => Ok(ConfigCommand::Init { force: f }),
            Err(e) => Err(e),
        }
    } else if str_eq(sub, "validate") {
        read_validate(args, from)
    } else {
        Err(concat2("Unknown config subcommand: ", sub))
    }
}

/// Whether a directory entry is a profile: its name has the extension `toml`
/// (a name that is only `.toml` has none).
pub open spec fn is_profile_file_spec(name: Seq<char>) -> bool {
    ends_with(name, ".toml"@) && name.len() > 5
}

pub fn is_profile_file(name: &str) -> (r: bool)
    ensures
        r == is_profile_file_spec(name@),
{
    str_ends_with(name, ".toml") && name.unicode_len() > 5
}

/// Whether `config init` copies a profile: when the user has none of that name, or
/// when `--force` was given.
pub fn should_copy_profile(dest_exists: bool, force: bool) -> (r: bool)
    ensures
        r == (!dest_exists || force),
{
    !dest_exists || force
}

/// A value in a profile listing: the value, or `-` when it is not set.
pub open spec fn opt_text(o: Option<Seq<char>>) -> Seq<char> {
    match o {
        Some(s) => s,
        None => "-"@,
    }
}

pub open spec fn opt_u64_text(o: Option<u64>) -> Seq<char> {
    match o {
        Some(n) => decimal(n as nat),
        None => "-"@,
    }
}

pub open spec fn opt_u32_text(o: Option<u32>) -> Seq<char> {
    match o {
        Some(n) => decimal(n as nat),
        None => "-"@,
    }
}

/// The values of a profile as `config show --verbose` lists them.
pub open spec fn profile_details(p: ProfileView) -> Seq<char> {
    " (runtime="@ + opt_text(p.runtime) + ", model="@ + opt_text(p.model) + ", warning_model="@
        + opt_text(p.warning_model) + ", context_length="@ + opt_u64_text(p.context_length)
        + ", max_tokens="@ + opt_u32_text(p.max_tokens) + ", threads="@ + opt_u32_text(p.threads)
        + ", gpu_layers="@ + opt_u32_text(p.gpu_layers) + ", cache_type_k="@ + opt_text(
        p.cache_type_k,
    ) + ", cache_type_v="@ + opt_text(p.cache_type_v) + ", max_model_len="@ + opt_u32_text(
        p.max_model_len,
    ) + ", max_num_seqs="@ + opt_u32_text(p.max_num_seqs) + ", quantization="@ + opt_text(
        p.quantization,
    ) + ", precision="@ + opt_text(p.precision) + ")"@
}

/// A line of `config show`: the file name, with the profile's values when listing
/// verbosely.
pub open spec fn profile_list_line_spec(name: Seq<char>, profile: Option<ProfileView>) -> Seq<char> {
    match profile {
        Some(p) => " - "@ + name + profile_details(p),
        None => " - "@ + name,
    }
}

fn push_opt_text(out: &mut String, o: &Option<String>)
    ensures
        final(out)@ == old(out)@ + opt_text(opt_str_view(*o)),
{
    match o {
        Some(s) => out.append(s.as_str()),
        None => out.append("-"),
    }
}

fn push_opt_u64(out: &mut String, o: Option<u64>)
    ensures
        final(out)@ == old(out)@ + opt_u64_text(o),
{
    match o {
        Some(n) => push_decimal(out, n),
        None => out.append("-"),
    }
}

fn push_opt_u32(out: &mut String, o: Option<u32>)
    ensures
        final(out)@ == old(out)@ + opt_u32_text(o),
{
    match o {
        Some(n) => push_decimal(out, n as u64),
        None => out.append("-"),
    }
}

fn details_text(p: &Profile) -> (r: String)
    ensures
        r@ == profile_details(p@),
{
    let mut out = String::from_str(" (runtime=");
    push_opt_text(&mut out, &p.runtime);
    out.append(", model=");
    push_opt_text(&mut out, &p.model);
    out.append(", warning_model=");
    push_opt_text(&mut out, &p.warning_model);
    out.append(", context_length=");
    push_opt_u64(&mut out, p.context_length);
    out.append(", max_tokens=");
    push_opt_u32(&mut out, p.max_tokens);
    out.append(", threads=");
    push_opt_u32(&mut out, p.threads);
    out.append(", gpu_layers=");
    push_opt_u32(&mut out, p.gpu_layers);
    out.append(", cache_type_k=");
    push_opt_text(&mut out, &p.cache_type_k);
    out.append(", cache_type_v=");
    push_opt_text(&mut out, &p.cache_type_v);
    out.append(", max_model_len=");
    push_opt_u32(&mut out, p.max_model_len);
    out.append(", max_num_seqs=");
    push_opt_u32(&mut out, p.max_num_seqs);
    out.append(", quantization=");
    push_opt_text(&mut out, &p.quantization);
    out.append(", precision=");
    push_opt_text(&mut out, &p.precision);
    out.append(")");
    out
}

/// The line that `config show` prints for a profile file; `profile` is the loaded
/// profile when listing verbosely.
pub fn profile_list_line(name: &str, profile: Option<&Profile>) -> (r: String)
    ensures
        r@ == profile_list_line_spec(
            name@,
            match profile {
                Some(p) => Some(p@),
                None => None,
            },
        ),
{
    match profile {
        Some(p) => {
            let d = details_text(p);
            concat3(" - ", name, d.as_str())
        },
        None => concat2(" - ", name),
    }
}

/// The result of validating one profile file.
pub struct ValidationItem {
    pub name: String,
    /// `ok` or `error`.
    pub status: &'static str,
    pub error: Option<String>,
}

impl ValidationItem {
    /// The item for a file that loaded (`error` is `None`) or did not.
    pub fn new(name: String, error: Option<String>) -> (r: ValidationItem)
        ensures
            r.name@ == name@,
            opt_str_view(r.error) == opt_str_view(error),
            r.status@ == if error is None {
                "ok"@
            } else {
                "error"@
            },
    {
        let status = if error.is_none() {
            "ok"
        } else {
            "error"
        };
        ValidationItem { name, status, error }
    }
}

/// How many items failed.
pub open spec fn failure_count(items: Seq<ValidationItem>) -> nat
    decreases items.len(),
{
    if items.len() == 0 {
        0
    } else {
        failure_count(items.drop_last()) + if items.last().status@ == "error"@ {
            1nat
        } else {
            0nat
        }
    }
}

proof fn lemma_failure_count_bound(items: Seq<ValidationItem>)
    ensures
        failure_count(items) <= items.len(),
    decreases items.len(),
{
    if items.len() > 0 {
        lemma_failure_count_bound(items.drop_last());
    }
}

/// The number of failed items.
pub fn count_failures(results: &Vec<ValidationItem>) -> (r: usize)
    ensures
        r == failure_count(results@),
        r <= results@.len(),
{
    let mut n: usize = 0;
    let mut i: usize = 0;
    while i < results.len()
        invariant
            i <= results@.len(),
            n == failure_count(results@.subrange(0, i as int)),
            n <= i,
        decreases results@.len() - i,
    {
        assert(results@.subrange(0, i + 1).drop_last() =~= results@.subrange(0, i as int));
        if str_eq(results[i].status, "error") {
            n = n + 1;
        }
        i = i + 1;
    }
    assert(results@.subrange(0, results@.len() as int) =~= results@);
    n
}

/// One item in the JSON report: its name, status and error, between braces.
pub open spec fn item_json(it: ValidationItem) -> Seq<char> {
    seq!['{'] + (json_field("name"@, it.name@, true) + json_field("status"@, it.status@, true)
        + error_field(it)).drop_last() + seq!['}']
}

/// The `error` field of an item, when it has a message.
pub open spec fn error_field(it: ValidationItem) -> Seq<char> {
    match it.error {
        Some(e) => json_field("error"@, e@, true),
        None => Seq::empty(),
    }
}

/// The first `n` items, comma-separated.
pub open spec fn items_json(items: Seq<ValidationItem>, n: nat) -> Seq<char>
    decreases n,
{
    if n == 0 {
        Seq::empty()
    } else if n == 1 {
        item_json(items[0])
    } else {
        items_json(items, (n - 1) as nat) + seq![','] + item_json(items[n - 1])
    }
}

/// `{"results":[...],"summary":{"total":..,"ok":..,"failed":..}}`.
pub open spec fn validation_json_spec(items: Seq<ValidationItem>) -> Seq<char> {
    let failed = failure_count(items);
    let total = items.len();
    "{\"results\":["@ + items_json(items, items.len()) + "],\"summary\":{"@ + (json_field(
        "total"@,
        decimal(total),
        false,
    ) + json_field("ok"@, decimal((total - failed) as nat), false) + json_field(
        "failed"@,
        decimal(failed),
        false,
    )).drop_last() + "}}"@
}

proof fn lemma_field_last(key: Seq<char>, value: Seq<char>, quoted: bool, before: Seq<char>)
    ensures
        (before + json_field(key, value, quoted)).len() > 0,
        (before + json_field(key, value, quoted)).last() == ',',
{
    let f = json_field(key, value, quoted);
    assert((before + f).last() == f.last());
    assert(f.last() == ',');
}

fn push_item_json(out: &mut String, it: &ValidationItem)
    ensures
        final(out)@ == old(out)@ + item_json(*it),
{
    push_char(out, '{');
    let ghost start = out@;
    push_json_field(out, "name", it.name.as_str(), true);
    push_json_field(out, "status", it.status, true);
    let ghost fields = json_field("name"@, it.name@, true) + json_field("status"@, it.status@, true);
    proof {
        lemma_field_last("status"@, it.status@, true, json_field("name"@, it.name@, true));
    }
    if let Some(e) = &it.error {
        push_json_field(out, "error", e.as_str(), true);
        proof {
            lemma_field_last("error"@, e@, true, fields);
        }
    }
    let ghost all = fields + error_field(*it);
    assert(out@ =~= start + all);
    assert(all.len() > 0 && all.last() == ',');
    pop_trailing_comma(out);
    push_char(out, '}');
    assert(out@ =~= old(out)@ + item_json(*it));
}

/// The JSON report of a validation run.
pub fn validation_json(results: &Vec<ValidationItem>) -> (r: String)
    ensures
        r@ == validation_json_spec(results@),
{
    let mut out = String::from_str("{\"results\":[");
    let mut i: usize = 0;
    while i < results.len()
        invariant
            i <= results@.len(),
            out@ == "{\"results\":["@ + items_json(results@, i as nat),
        decreases results@.len() - i,
    {
        let ghost before = out@;
        if i > 0 {
            push_char(&mut out, ',');
        }
        push_item_json(&mut out, &results[i]);
        if i == 0 {
            assert(out@ =~= before + item_json(results@[0]));
        } else {
            assert(out@ =~= before + seq![','] + item_json(results@[i as int]));
        }
        i = i + 1;
    }
    let total = results.len();
    let failed = count_failures(results);
    out.append("],\"summary\":{");
    let mut summary = String::new();
    push_json_field(&mut summary, "total", crate::text::u64_to_string(total as u64).as_str(), false);
    push_json_field(&mut summary, "ok", crate::text::u64_to_string((total - failed) as u64).as_str(), false);
    push_json_field(&mut summary, "failed", crate::text::u64_to_string(failed as u64).as_str(), false);
    let ghost fields = json_field("total"@, decimal(total as nat), false) + json_field(
        "ok"@,
        decimal((total - failed) as nat),
        false,
    ) + json_field("failed"@, decimal(failed as nat), false);
    assert(summary@ =~= fields);
    proof {
        lemma_field_last("failed"@, decimal(failed as nat), false, json_field("total"@, decimal(total as nat), false) + json_field(
            "ok"@,
            decimal((total - failed) as nat),
            false,
        ));
    }
    pop_trailing_comma(&mut summary);
    out.append(summary.as_str());
    out.append("}}");
    out
}

/// The lines that a validation run prints without `--json`: the counts (or that
/// there was nothing to validate), then each failure with its error.
pub open spec fn validation_lines_spec(items: Seq<ValidationItem>) -> Seq<Seq<char>> {
    let failed = failure_count(items);
    let total = items.len();
    let head = if total == 0 {
        seq!["No profiles found to validate."@]
    } else {
        seq![
            "Validated "@ + decimal(total) + " profiles (ok "@ + decimal((total - failed) as nat)
                + ", failed "@ + decimal(failed) + ")."@,
        ]
    };
    if failed > 0 {
        head + seq!["Failures:"@] + failure_lines(items)
    } else {
        head
    }
}

/// ` - name: error` for each failed item, in order; `unknown error` when it has no
/// message.
pub open spec fn failure_lines(items: Seq<ValidationItem>) -> Seq<Seq<char>>
    decreases items.len(),
{
    if items.len() == 0 {
        Seq::empty()
    } else {
        let it = items.last();
        failure_lines(items.drop_last()) + if it.status@ == "error"@ {
            seq![
                " - "@ + it.name@ + ": "@ + match it.error {
                    Some(e) => e@,
                    None => "unknown error"@,
                },
            ]
        } else {
            Seq::empty()
        }
    }
}

pub fn validation_lines(results: &Vec<ValidationItem>) -> (r: Vec<String>)
    ensures
        strs_view(r@) == validation_lines_spec(results@),
{
    let total = results.len();
    let failed = count_failures(results);
    let mut lines: Vec<String> = Vec::new();
    if total == 0 {
        lines.push(String::from_str("No profiles found to validate."));
    } else {
        let mut s = String::from_str("Validated ");
        push_decimal(&mut s, total as u64);
        s.append(" profiles (ok ");
        push_decimal(&mut s, (total - failed) as u64);
        s.append(", failed ");
        push_decimal(&mut s, failed as u64);
        s.append(").");
        lines.push(s);
    }
    if failed > 0 {
        lines.push(String::from_str("Failures:"));
        let ghost base = strs_view(lines@);
        let mut i: usize = 0;
        while i < results.len()
            invariant
                i <= results@.len(),
                strs_view(lines@) == base + failure_lines(results@.subrange(0, i as int)),
            decreases results@.len() - i,
        {
            let ghost prefix = results@.subrange(0, i + 1);
            assert(prefix.drop_last() =~= results@.subrange(0, i as int));
            assert(prefix.last() == results@[i as int]);
            let ghost prev = strs_view(lines@);
            let it = &results[i];
            if str_eq(it.status, "error") {
                let err: &str = match &it.error {
                    Some(e) => e.as_str(),
                    None => "unknown error",
                };
                let mut s = String::from_str(" - ");
                s.append(it.name.as_str());
                s.append(": ");
                s.append(err);
                let ghost line = s@;
                lines.push(s);
                assert(strs_view(lines@) =~= prev.push(line));
            } else {
                assert(strs_view(lines@) =~= prev);
            }
            i = i + 1;
            assert(strs_view(lines@) =~= base + failure_lines(results@.subrange(0, i as int)));
        }
        assert(results@.subrange(0, results@.len() as int) =~= results@);
        assert(strs_view(lines@) =~= validation_lines_spec(results@));
    } else {
        assert(strs_view(lines@) =~= validation_lines_spec(results@));
    }
    lines
}

/// A validation run fails when any profile did.
pub fn validation_outcome(results: &Vec<ValidationItem>) -> (r: Result<(), String>)
    ensures
        failure_count(results@) > 0 ==> (r matches Err(e) && e@ == "Profile validation failed"@),
        failure_count(results@) == 0 ==> r is Ok,
{
    if count_failures(results) > 0 {
        Err(String::from_str("Profile validation failed"))
    } else {
        Ok(())
    }
}

} // verus!
