use vstd::prelude::*;
use crate::manifest::ServiceDef;
use crate::text::{contains_text, occurs_in, replace_all, replace_text, trim_text, trimmed};

verus! {

/// What the environment and the application settings hold when a service is
/// launched. The caller reads these; the library decides what to do with them.
pub struct LaunchContext {
    /// The `APPDATA` environment variable, if set.
    pub appdata: Option<String>,
    /// The stored Hugging Face token, empty when there is none.
    pub hf_token: String,
    /// The `MODELS_DIR` environment variable, if set.
    pub models_dir_env: Option<String>,
    /// The models directory chosen in the application settings, if any.
    pub settings_models_dir: Option<String>,
    /// Loudness settings handed to the `sa3` service, as variable and value.
    pub sa3_loudness_env: Vec<(String, String)>,
    /// Whether `melodyflow` should use flash attention.
    pub melodyflow_use_flash_attn: bool,
    /// Whether `carey` should use the XL models.
    pub carey_use_xl_models: bool,
    /// Whether `carey` should use the scrag VAE.
    pub carey_use_scrag_vae: bool,
}

/// One change to a child process's environment.
pub enum EnvAction {
    Assign(String, String),
    Remove(String),
}

/// An environment change with its texts as character sequences.
pub enum EnvActionView {
    Assign(Seq<char>, Seq<char>),
    Remove(Seq<char>),
}

impl View for EnvAction {
    type V = EnvActionView;

    open spec fn view(&self) -> EnvActionView {
        match self {
            EnvAction::Assign(k, v) => EnvActionView::Assign(k@, v@),
            EnvAction::Remove(k) => EnvActionView::Remove(k@),
        }
    }
}

/// The views of a list of environment changes.
pub open spec fn actions_view(actions: Seq<EnvAction>) -> Seq<EnvActionView> {
    actions.map_values(|a: EnvAction| a@)
}

/// Whether the settings name a models directory that is not blank.
pub open spec fn settings_override(ctx: LaunchContext) -> bool {
    ctx.settings_models_dir matches Some(md) && trimmed(md@).len() > 0
}

/// The models directory used for `${MODELS_DIR}`: the `MODELS_DIR` variable,
/// else the directory chosen in the settings when it is not blank, else
/// `Gary4JUCE\models` under `APPDATA`, else nothing.
pub open spec fn models_dir_value(ctx: LaunchContext) -> Seq<char> {
    match ctx.models_dir_env {
        Some(m) => m@,
        None => if settings_override(ctx) {
            ctx.settings_models_dir->0@
        } else {
            match ctx.appdata {
                Some(a) => a@ + "\\Gary4JUCE\\models"@,
                None => Seq::empty(),
            }
        },
    }
}

/// `value` after `${APPDATA}` is filled in.
pub open spec fn with_appdata(value: Seq<char>, ctx: LaunchContext) -> Seq<char> {
    match ctx.appdata {
        Some(a) => replace_all(value, "${APPDATA}"@, a@),
        None => value,
    }
}

/// `value` after `${HF_TOKEN}` is filled in, where it occurs.
pub open spec fn with_hf_token(value: Seq<char>, ctx: LaunchContext) -> Seq<char> {
    if occurs_in("${HF_TOKEN}"@, value) {
        replace_all(value, "${HF_TOKEN}"@, ctx.hf_token@)
    } else {
        value
    }
}

/// `value` after `${MODELS_DIR}` is filled in, where it occurs.
pub open spec fn with_models_dir(value: Seq<char>, ctx: LaunchContext) -> Seq<char> {
    if occurs_in("${MODELS_DIR}"@, value) {
        replace_all(value, "${MODELS_DIR}"@, models_dir_value(ctx))
    } else {
        value
    }
}

/// The value that a manifest variable takes once its templates are filled in.
pub open spec fn resolved_value(value: Seq<char>, ctx: LaunchContext) -> Seq<char> {
    with_models_dir(with_hf_token(with_appdata(value, ctx), ctx), ctx)
}

/// Fills in the `${APPDATA}`, `${HF_TOKEN}` and `${MODELS_DIR}` templates of a
/// manifest variable's value.
pub fn resolve_env_var(value: &str, ctx: &LaunchContext) -> (r: String)
    ensures
        r@ == resolved_value(value@, *ctx),
{
    let mut result = value.to_owned();
    if let Some(appdata) = &ctx.appdata {
        proof {
            reveal_strlit("${APPDATA}");
        }
        result = replace_text(result.as_str(), "${APPDATA}", appdata.as_str());
    }
    if contains_text(result.as_str(), "${HF_TOKEN}") {
        proof {
            reveal_strlit("${HF_TOKEN}");
        }
        result = replace_text(result.as_str(), "${HF_TOKEN}", ctx.hf_token.as_str());
    }
    if contains_text(result.as_str(), "${MODELS_DIR}") {
        let models_dir = match &ctx.models_dir_env {
            Some(m) => m.clone(),
            None => {
                let chosen = match &ctx.settings_models_dir {
                    Some(md) => !trim_text(md.as_str()).is_empty(),
                    None => false,
                };
                if chosen {
                    match &ctx.settings_models_dir {
                        Some(md) => md.clone(),
                        None => String::new(),
                    }
                } else {
                    match &ctx.appdata {
                        Some(a) => a.clone().concat("\\Gary4JUCE\\models"),
                        None => String::new(),
                    }
                }
            },
        };
        proof {
            reveal_strlit("${MODELS_DIR}");
        }
        result = replace_text(result.as_str(), "${MODELS_DIR}", models_dir.as_str());
    }
    result
}

/// Whether a resolved value is handed to the child: it must be non-empty and
/// hold no template left unresolved.
pub open spec fn is_usable_value(r: Seq<char>) -> bool {
    r.len() > 0 && !occurs_in("${"@, r)
}

/// The variables of the manifest that are set, in manifest order.
pub open spec fn manifest_env_plan(env: Seq<(String, String)>, ctx: LaunchContext) -> Seq<EnvActionView>
    decreases env.len(),
{
    if env.len() == 0 {
        Seq::empty()
    } else {
        let rest = manifest_env_plan(env.drop_last(), ctx);
        let r = resolved_value(env.last().1@, ctx);
        if is_usable_value(r) {
            rest.push(EnvActionView::Assign(env.last().0@, r))
        } else {
            rest
        }
    }
}

/// The loudness settings that are set for `sa3`: trimmed, and only when not blank.
pub open spec fn loudness_plan(pairs: Seq<(String, String)>) -> Seq<EnvActionView>
    decreases pairs.len(),
{
    if pairs.len() == 0 {
        Seq::empty()
    } else {
        let rest = loudness_plan(pairs.drop_last());
        let t = trimmed(pairs.last().1@);
        if t.len() > 0 {
            rest.push(EnvActionView::Assign(pairs.last().0@, t))
        } else {
            rest
        }
    }
}

/// The model configurations that `carey` is started with.
pub open spec fn carey_plan(ctx: LaunchContext) -> Seq<EnvActionView> {
    let base = if ctx.carey_use_xl_models { "acestep-v15-xl-base"@ } else { "acestep-v15-base"@ };
    let sft = if ctx.carey_use_xl_models { "acestep-v15-xl-sft"@ } else { "acestep-v15-sft"@ };
    let turbo = if ctx.carey_use_xl_models { "acestep-v15-xl-turbo"@ } else { "acestep-v15-turbo"@ };
    seq![
        EnvActionView::Assign("ACESTEP_CONFIG_PATH"@, base),
        EnvActionView::Assign("ACESTEP_BASE_CONFIG_PATH"@, base),
        EnvActionView::Assign("ACESTEP_SFT_CONFIG_PATH"@, sft),
        EnvActionView::Assign("ACESTEP_TURBO_CONFIG_PATH"@, turbo),
        EnvActionView::Assign("ACESTEP_LEGO_CONFIG_PATH"@, base),
        EnvActionView::Assign("ACESTEP_REGULAR_CONFIG_PATH"@, base),
        EnvActionView::Assign("ACESTEP_NO_INIT"@, "true"@),
        if ctx.carey_use_scrag_vae {
            EnvActionView::Assign("ACESTEP_VAE_PATH"@, "scrag-vae"@)
        } else {
            EnvActionView::Remove("ACESTEP_VAE_PATH"@)
        },
    ]
}

/// The changes that only some services get.
pub open spec fn extra_plan(id: Seq<char>, ctx: LaunchContext) -> Seq<EnvActionView> {
    if id == "sa3"@ {
        loudness_plan(ctx.sa3_loudness_env@)
    } else if id == "melodyflow"@ {
        seq![
            EnvActionView::Assign(
                "MELODYFLOW_USE_FLASH_ATTN"@,
                if ctx.melodyflow_use_flash_attn { "1"@ } else { "0"@ },
            ),
        ]
    } else if id == "carey"@ {
        carey_plan(ctx)
    } else {
        Seq::empty()
    }
}

/// All the service-specific changes to a child's environment, in the order
/// in which they are applied.
pub open spec fn service_env_plan(svc: ServiceDef, ctx: LaunchContext) -> Seq<EnvActionView> {
    manifest_env_plan(svc.env@, ctx) + extra_plan(svc.id@, ctx)
}

fn text_is(s: &String, lit: &str) -> (b: bool)
    ensures
        b == (s@ == lit@),
{
    let l = lit.to_owned();
    *s == l
}

fn set_action(key: &str, value: &str) -> (a: EnvAction)
    ensures
        a@ == EnvActionView::Assign(key@, value@),
{
    EnvAction::Assign(key.to_owned(), value.to_owned())
}

/// The service-specific changes to the environment of the child that runs `svc`.
pub fn service_env(svc: &ServiceDef, ctx: &LaunchContext) -> (plan: Vec<EnvAction>)
    ensures
        actions_view(plan@) == service_env_plan(*svc, *ctx),
{
    let mut plan: Vec<EnvAction> = Vec::new();
    let mut i: usize = 0;
    while i < svc.env.len()
        invariant
            i <= svc.env@.len(),
            actions_view(plan@) == manifest_env_plan(svc.env@.subrange(0, i as int), *ctx),
        decreases svc.env@.len() - i,
    {
        let resolved = resolve_env_var(svc.env[i].1.as_str(), ctx);
        proof {
            reveal_strlit("${");
        }
        let keep = !resolved.as_str().is_empty() && !contains_text(resolved.as_str(), "${");
        proof {
            let prefix = svc.env@.subrange(0, i as int + 1);
            assert(prefix.drop_last() =~= svc.env@.subrange(0, i as int));
            assert(prefix.last() == svc.env@[i as int]);
        }
        if keep {
            plan.push(EnvAction::Assign(svc.env[i].0.clone(), resolved));
        }
        proof {
            assert(actions_view(plan@) =~= manifest_env_plan(svc.env@.subrange(0, i as int + 1), *ctx));
        }
        i = i + 1;
    }
    proof {
        assert(svc.env@.subrange(0, svc.env@.len() as int) =~= svc.env@);
    }
    let ghost base = actions_view(plan@);
    if text_is(&svc.id, "sa3") {
        let pairs = &ctx.sa3_loudness_env;
        let mut j: usize = 0;
        while j < pairs.len()
            invariant
                j <= pairs@.len(),
                actions_view(plan@) == base + loudness_plan(pairs@.subrange(0, j as int)),
            decreases pairs@.len() - j,
        {
            let t = trim_text(pairs[j].1.as_str());
            proof {
                let prefix = pairs@.subrange(0, j as int + 1);
                assert(prefix.drop_last() =~= pairs@.subrange(0, j as int));
                assert(prefix.last() == pairs@[j as int]);
            }
            let ghost prev = actions_view(plan@);
            if !t.is_empty() {
                plan.push(EnvAction::Assign(pairs[j].0.clone(), t.to_owned()));
                proof {
                    let a = EnvActionView::Assign(pairs@[j as int].0@, t@);
                    assert(actions_view(plan@) =~= prev.push(a));
                    assert(prev.push(a) =~= base + loudness_plan(pairs@.subrange(0, j as int)).push(a));
                }
            }
            proof {
                assert(actions_view(plan@) =~= base + loudness_plan(pairs@.subrange(0, j as int + 1)));
            }
            j = j + 1;
        }
        proof {
            assert(pairs@.subrange(0, pairs@.len() as int) =~= pairs@);
        }
    } else if text_is(&svc.id, "melodyflow") {
        let flag = if ctx.melodyflow_use_flash_attn { "1" } else { "0" };
        plan.push(set_action("MELODYFLOW_USE_FLASH_ATTN", flag));
        proof {
            assert(actions_view(plan@) =~= base + extra_plan(svc.id@, *ctx));
        }
    } else if text_is(&svc.id, "carey") {
        let xl = ctx.carey_use_xl_models;
        let base_config = if xl { "acestep-v15-xl-base" } else { "acestep-v15-base" };
        let sft_config = if xl { "acestep-v15-xl-sft" } else { "acestep-v15-sft" };
        let turbo_config = if xl { "acestep-v15-xl-turbo" } else { "acestep-v15-turbo" };
        plan.push(set_action("ACESTEP_CONFIG_PATH", base_config));
        plan.push(set_action("ACESTEP_BASE_CONFIG_PATH", base_config));
        plan.push(set_action("ACESTEP_SFT_CONFIG_PATH", sft_config));
        plan.push(set_action("ACESTEP_TURBO_CONFIG_PATH", turbo_config));
        plan.push(set_action("ACESTEP_LEGO_CONFIG_PATH", base_config));
        plan.push(set_action("ACESTEP_REGULAR_CONFIG_PATH", base_config));
        plan.push(set_action("ACESTEP_NO_INIT", "true"));
        if ctx.carey_use_scrag_vae {
            plan.push(set_action("ACESTEP_VAE_PATH", "scrag-vae"));
        } else {
            plan.push(EnvAction::Remove("ACESTEP_VAE_PATH".to_owned()));
        }
        proof {
            assert(actions_view(plan@) =~= base + extra_plan(svc.id@, *ctx));
        }
    } else {
        proof {
            assert(actions_view(plan@) =~= base + extra_plan(svc.id@, *ctx));
        }
    }
    plan
}

} // verus!
