use vstd::prelude::*;
use vstd::string::*;

use crate::level::{eq_ignore_ascii_case, str_eq_ignore_ascii_case};

verus! {

/// What `PathBuf::set_extension` makes of `path` with extension `extension`.
pub uninterp spec fn path_with_extension(path: Seq<char>, extension: Seq<char>) -> Seq<char>;

/// An extension holds no path separator: no `/`, and no backslash (a separator on
/// some targets).
pub open spec fn separator_free(extension: Seq<char>) -> bool {
    forall|i: int| 0 <= i < extension.len() ==> #[trigger] extension[i] != '/' && extension[i] != '\\'
}

/// Relies on std::path::PathBuf::set_extension: the path with the extension of its
/// last component replaced by (or extended with) `extension`. It panics on an extension
/// that holds a path separator, which `requires` rules out. Both inputs are UTF-8, so
/// the result converts back without loss.
#[verifier::external_body]
fn with_extension(path: &str, extension: &str) -> (r: String)
    requires
        separator_free(extension@),
    ensures
        r@ == path_with_extension(path@, extension@),
{
    let mut buf = std::path::PathBuf::from(path);
    buf.set_extension(extension);
    buf.to_string_lossy().into_owned()
}

/// Whether two strings hold the same characters.
pub fn same_text(a: &str, b: &str) -> (r: bool)
    ensures
        r == (a@ == b@),
{
    let n = a.unicode_len();
    if n != b.unicode_len() {
        return false;
    }
    let mut i: usize = 0;
    while i < n
        invariant
            n == a@.len(),
            n == b@.len(),
            i <= n,
            forall|k: int| 0 <= k < i ==> #[trigger] a@[k] == b@[k],
        decreases n - i,
    {
        if a.get_char(i) != b.get_char(i) {
            return false;
        }
        i += 1;
    }
    assert(a@ =~= b@);
    true
}

/// Options gathered by the flag scan: output, engine, contract, rollback.
pub type FlagState = (Option<Seq<char>>, Option<Seq<char>>, Option<Seq<char>>, bool);

/// Scans the flags `args[i..]`, each either a switch or a flag with a value.
pub open spec fn scan_flags(args: Seq<Seq<char>>, i: nat, st: FlagState) -> Result<
    FlagState,
    Seq<char>,
>
    decreases args.len() - i,
{
    if i >= args.len() {
        Ok(st)
    } else {
        let a = args[i as int];
        if a == "--output"@ {
            if i + 1 < args.len() {
                scan_flags(args, i + 2, (Some(args[i + 1int]), st.1, st.2, st.3))
            } else {
                Err("--output expects a path"@)
            }
        } else if a == "--engine"@ {
            if i + 1 < args.len() {
                scan_flags(args, i + 2, (st.0, Some(args[i + 1int]), st.2, st.3))
            } else {
                Err("--engine expects a value"@)
            }
        } else if a == "--contract"@ {
            if i + 1 < args.len() {
                scan_flags(args, i + 2, (st.0, st.1, Some(args[i + 1int]), st.3))
            } else {
                Err("--contract expects a path"@)
            }
        } else if a == "--rollback"@ {
            scan_flags(args, i + 1, (st.0, st.1, st.2, true))
        } else if a == "--no-rollback"@ {
            scan_flags(args, i + 1, (st.0, st.1, st.2, false))
        } else if a.len() > 0 && a[0] == '-' {
            Err("unknown fold argument: "@ + a)
        } else {
            Err("unexpected positional argument '"@ + a + "'. Expected only the input path."@)
        }
    }
}

/// The value of an option, or `default` when it is absent.
pub open spec fn or_default(o: Option<Seq<char>>, default: Seq<char>) -> Seq<char> {
    match o {
        Some(v) => v,
        None => default,
    }
}

/// The parsed command as (input, output, engine, rollback, contract path), or the
/// error text.
pub open spec fn fold_command_of(args: Seq<Seq<char>>) -> Result<
    (Seq<char>, Seq<char>, Seq<char>, bool, Seq<char>),
    Seq<char>,
> {
    if args.len() == 0 {
        Err("missing input sequence (FASTA or JSON)"@)
    } else {
        match scan_flags(args, 1, (None, None, None, false)) {
            Err(e) => Err(e),
            Ok(st) => {
                let input = args[0];
                let output = or_default(st.0, path_with_extension(input, "pdb"@));
                let contract = or_default(st.2, path_with_extension(output, "lll"@));
                Ok((input, output, or_default(st.1, "logline"@), st.3, contract))
            },
        }
    }
}

/// Views of a list of arguments.
pub open spec fn args_view(args: Seq<String>) -> Seq<Seq<char>> {
    args.map_values(|s: String| s@)
}

pub open spec fn opt_view(o: Option<String>) -> Option<Seq<char>> {
    match o {
        Some(s) => Some(s@),
        None => None,
    }
}

/// Arguments of the fold subcommand:
/// `<INPUT> [--output <OUTPUT>] [--engine <ENGINE>] [--contract <CONTRACT>] [--rollback]`.
#[derive(Debug, Clone)]
pub struct FoldCommand {
    pub input: String,
    pub output: String,
    pub engine: String,
    pub rollback: bool,
    pub contract_path: String,
}

impl FoldCommand {
    pub open spec fn view(&self) -> (Seq<char>, Seq<char>, Seq<char>, bool, Seq<char>) {
        (self.input@, self.output@, self.engine@, self.rollback, self.contract_path@)
    }

    /// Parses the fold subcommand's arguments. The output path defaults to the input
    /// with extension `pdb`, the contract path to the output with extension `lll`, the
    /// engine to `logline`.
    pub fn parse(args: &[String]) -> (r: Result<FoldCommand, String>)
        ensures
            r is Ok <==> fold_command_of(args_view(args@)) is Ok,
            r is Ok ==> r->Ok_0.view() == fold_command_of(args_view(args@))->Ok_0,
            r is Err ==> r->Err_0@ == fold_command_of(args_view(args@))->Err_0,
    {
        let ghost av = args_view(args@);
        let n = args.len();
        if n == 0 {
            return Err(String::from_str("missing input sequence (FASTA or JSON)"));
        }
        let input = args[0].clone();
        let mut output: Option<String> = None;
        let mut engine: Option<String> = None;
        let mut contract: Option<String> = None;
        let mut rollback = false;
        let mut index: usize = 1;
        while index < n
            invariant
                n == args@.len(),
                av == args_view(args@),
                av.len() == n,
                1 <= index,
                scan_flags(av, 1, (None, None, None, false)) == scan_flags(
                    av,
                    index as nat,
                    (opt_view(output), opt_view(engine), opt_view(contract), rollback),
                ),
            decreases n - index,
        {
            let a = args[index].as_str();
            assert(av[index as int] == a@);
            if same_text(a, "--output") {
                if index + 1 >= n {
                    return Err(String::from_str("--output expects a path"));
                }
                output = Some(args[index + 1].clone());
                index += 2;
            } else if same_text(a, "--engine") {
                if index + 1 >= n {
                    return Err(String::from_str("--engine expects a value"));
                }
                engine = Some(args[index + 1].clone());
                index += 2;
            } else if same_text(a, "--contract") {
                if index + 1 >= n {
                    return Err(String::from_str("--contract expects a path"));
                }
                contract = Some(args[index + 1].clone());
                index += 2;
            } else if same_text(a, "--rollback") {
                rollback = true;
                index += 1;
            } else if same_text(a, "--no-rollback") {
                rollback = false;
                index += 1;
            } else if a.unicode_len() > 0 && a.get_char(0) == '-' {
                return Err(String::from_str("unknown fold argument: ").concat(a));
            } else {
                let msg = String::from_str("unexpected positional argument '").concat(a).concat(
                    "'. Expected only the input path.",
                );
                return Err(msg);
            }
        }
        proof {
            reveal_strlit("pdb");
            reveal_strlit("lll");
        }
        let output = match output {
            Some(o) => o,
            None => with_extension(input.as_str(), "pdb"),
        };
        let contract_path = match contract {
            Some(c) => c,
            None => with_extension(output.as_str(), "lll"),
        };
        let engine = match engine {
            Some(e) => e,
            None => String::from_str("logline"),
        };
        Ok(FoldCommand { input, output, engine, rollback, contract_path })
    }
}

/// Text of the workflow contract written next to a fold's output.
pub open spec fn contract_text(input: Seq<char>, output: Seq<char>, rollback: bool) -> Seq<char> {
    "span:type=protein_folding\nid: logline_fold_run\nsteps:\n  - load: \""@ + input
        + "\"\n  - fold: \"logline_encoder_v1\"\n  - export: \""@ + output + "\"\nrollback: "@ + (
    if rollback {
        "true"@
    } else {
        "false"@
    }) + "\n"@
}

/// Renders the workflow contract of a fold from `input` to `output`.
pub fn render_contract(input: &str, output: &str, rollback: bool) -> (r: String)
    ensures
        r@ == contract_text(input@, output@, rollback),
{
    let flag = if rollback {
        "true"
    } else {
        "false"
    };
    String::from_str(
        "span:type=protein_folding\nid: logline_fold_run\nsteps:\n  - load: \"",
    ).concat(input).concat("\"\n  - fold: \"logline_encoder_v1\"\n  - export: \"").concat(
        output,
    ).concat("\"\nrollback: ").concat(flag).concat("\n")
}

/// The only engine a fold can run on, compared ignoring ASCII case.
pub const SUPPORTED_ENGINE: &'static str = "logline";

/// Accepts the engine named by a fold command, or says why not.
pub fn check_engine(engine: &str) -> (r: Result<(), String>)
    ensures
        r is Ok <==> eq_ignore_ascii_case(engine@, SUPPORTED_ENGINE@),
        r is Err ==> r->Err_0@ == "unsupported engine '"@ + engine@
            + "'. Only 'logline' is available in v0.1."@,
{
    if str_eq_ignore_ascii_case(engine, SUPPORTED_ENGINE) {
        Ok(())
    } else {
        Err(
            String::from_str("unsupported engine '").concat(engine).concat(
                "'. Only 'logline' is available in v0.1.",
            ),
        )
    }
}

} // verus!
