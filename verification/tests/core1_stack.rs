use proc_macro2::TokenStream;
use rticx_core::mock_backend::MockCoreBackend;
use rticx_core::parse_utils::RticAttr;
use rticx_core::RticMacroBuilder;
use rticx_rp2040::backend::Rp2040Rtic;
use rticx_rp2040::core1_stack::{
    after_publish, consume_stack_argument, core1_stack_size, parse_cores_arg, Core1StackPass, PassError, PassOutput,
    StackFault, INFO_CORE1_STACK_SIZE,
};
use rticx_rp2040::model::{AppArgs, Features, SubApp};

fn run(args: &str) -> Result<PassOutput, PassError> {
    let args = args.parse::<TokenStream>().unwrap();
    consume_stack_argument(args, syn::parse_str("mod app { fn f() {} }").unwrap())
}

fn text(e: PassError) -> String {
    match e {
        PassError::Syntax(e) => e.to_string(),
        PassError::Rejected { message, .. } => message,
        PassError::AlreadyPublished => "already published".to_string(),
    }
}

fn refusal(args: &str) -> String {
    match run(args) {
        Ok(_) => panic!("accepted"),
        Err(e) => text(e),
    }
}

fn arguments(args: TokenStream) -> Vec<(String, String)> {
    let name = proc_macro2::Ident::new("app", proc_macro2::Span::call_site());
    let attr = RticAttr::parse_from_tokens(args, name).unwrap();
    let mut all: Vec<(String, String)> = attr
        .elements
        .iter()
        .map(|(k, v)| (k.clone(), quote::ToTokens::to_token_stream(v).to_string()))
        .collect();
    all.sort();
    all
}

fn pair(k: &str, v: &str) -> (String, String) {
    (k.to_string(), v.to_string())
}

#[test]
fn default_size_without_the_argument() {
    let out = run("device = rp2040_hal::pac, dispatchers = [SW0_IRQ]").ok().unwrap();
    assert_eq!(out.stack_size, 4096);
    assert_eq!(
        arguments(out.args),
        vec![pair("device", "rp2040_hal :: pac"), pair("dispatchers", "[SW0_IRQ]")]
    );
}

#[test]
fn size_is_taken_and_the_rest_is_handed_on() {
    let args = "device=rp2040_hal::pac, dispatchers=[[DMA_IRQ_0], [DMA_IRQ_1]], cores = 2, core1_stack = 2048, flag, r#type = -1";
    let out = run(args).ok().unwrap();
    assert_eq!(out.stack_size, 2048);
    assert_eq!(
        quote::ToTokens::to_token_stream(&out.app_mod).to_string(),
        "mod app { fn f () { } }".parse::<TokenStream>().unwrap().to_string()
    );
    assert_eq!(
        arguments(out.args),
        vec![
            pair("cores", "2"),
            pair("device", "rp2040_hal :: pac"),
            pair("dispatchers", "[[DMA_IRQ_0] , [DMA_IRQ_1]]"),
            pair("flag", "()"),
            pair("r#type", "- 1"),
        ]
    );
}

#[test]
fn every_radix_is_read() {
    assert_eq!(run("cores = 0b10, core1_stack = 0x2000").ok().unwrap().stack_size, 8192);
    assert_eq!(run("cores = 2u32, core1_stack = 1_024usize").ok().unwrap().stack_size, 1024);
}

#[test]
fn only_two_cores_get_a_stack() {
    assert_eq!(
        refusal("core1_stack = 2048"),
        "`core1_stack` is only supported with `cores = 2` (found `cores = 1`)"
    );
    assert_eq!(
        refusal("cores = 3, core1_stack = 2048"),
        "`core1_stack` is only supported with `cores = 2` (found `cores = 3`)"
    );
    // a value that is no integer literal counts as absent
    assert_eq!(
        refusal("cores = two, core1_stack = 2048"),
        "`core1_stack` is only supported with `cores = 2` (found `cores = 1`)"
    );
    // the number of cores is looked at before the size
    assert_eq!(
        refusal("cores = 1, core1_stack = 1"),
        "`core1_stack` is only supported with `cores = 2` (found `cores = 1`)"
    );
}

#[test]
fn small_stacks_are_refused() {
    assert_eq!(
        refusal("cores = 2, core1_stack = 1023"),
        "`core1_stack` must be at least 1024 words (4KiB)"
    );
    assert_eq!(run("cores = 2, core1_stack = 1024").ok().unwrap().stack_size, 1024);
}

#[test]
fn malformed_arguments_are_refused() {
    assert_eq!(refusal("cores = 2, core1_stack = big"), "`core1_stack` must be an integer literal");
    assert_eq!(
        refusal("cores = 2, core1_stack = 99999999999999999999"),
        "`core1_stack` must be an integer literal: number too large to fit in target type"
    );
    assert_eq!(
        refusal("cores = 4294967296, core1_stack = 2048"),
        "`cores` must be an integer literal: number too large to fit in target type"
    );
    assert!(matches!(run("cores = 2 core1_stack = 2048"), Err(PassError::Syntax(_))));
    // without a stack size the number of cores is not looked at
    assert_eq!(run("cores = 4294967296").ok().unwrap().stack_size, 4096);
}

#[test]
fn refusals_point_at_the_argument() {
    for args in ["cores = 2, core1_stack = 1000", "cores = 4294967296, core1_stack = 1000"] {
        assert!(matches!(run(args), Err(PassError::Rejected { span: Some(_), .. })));
    }
}

#[test]
fn errors_of_the_parser_are_handed_on() {
    for args in ["cores = 2 core1_stack = 2048", "core1_stack = big", "core1_stack = 99999999999999999999"] {
        assert!(matches!(run(args), Err(PassError::Syntax(_))));
    }
}

#[test]
fn consumed_argument_is_gone() {
    let out = run("cores = 2, core1_stack = 2048").ok().unwrap();
    let again = consume_stack_argument(out.args, out.app_mod).ok().unwrap();
    assert_eq!(again.stack_size, 4096);
    assert_eq!(arguments(again.args), vec![pair("cores", "2")]);
}

#[test]
fn stack_size_rule() {
    assert_eq!(core1_stack_size(None, None), Ok(4096));
    assert_eq!(core1_stack_size(None, Some(7)), Ok(4096));
    assert_eq!(core1_stack_size(Some(8192), Some(2)), Ok(8192));
    assert_eq!(core1_stack_size(Some(8192), None), Err(StackFault::NotTwoCores(1)));
    assert_eq!(core1_stack_size(Some(0), Some(0)), Err(StackFault::NotTwoCores(0)));
    assert_eq!(core1_stack_size(Some(1023), Some(2)), Err(StackFault::TooSmall));
}

#[test]
fn cores_argument() {
    let expr = |s: &str| syn::parse_str::<syn::Expr>(s).unwrap();
    assert_eq!(parse_cores_arg(None).ok().unwrap(), None);
    assert_eq!(parse_cores_arg(Some(&expr("2"))).ok().unwrap(), Some(2));
    assert_eq!(parse_cores_arg(Some(&expr("0xff"))).ok().unwrap(), Some(255));
    assert_eq!(parse_cores_arg(Some(&expr("N"))).ok().unwrap(), None);
    assert_eq!(parse_cores_arg(Some(&expr("\"2\""))).ok().unwrap(), None);
    assert!(parse_cores_arg(Some(&expr("4294967296"))).is_err());
}

#[test]
fn published_size_reaches_the_definitions() {
    let builder = RticMacroBuilder::new(MockCoreBackend);
    let mut pass = Core1StackPass::new();
    let mut backend =
        Rp2040Rtic::new(Features { autoassign: false, swtasks: false, async_tasks: false });
    pass.subscribe(builder.info_bus().clone());
    backend.subscribe(builder.info_bus().clone());
    let app_args = AppArgs { pacs: vec!["pac".to_string(), "pac".to_string()], cores: 2 };
    let sub_app = SubApp { core: 0, tasks: vec![] };

    let code = backend.generate_global_definitions(&app_args, &sub_app).unwrap();
    assert!(code.contains("Stack<4096usize>"));

    let args = "cores = 2, core1_stack = 8192".parse::<TokenStream>().unwrap();
    let app_mod: syn::ItemMod = syn::parse_str("mod app {}").unwrap();
    assert!(pass.run_pass(args.clone(), app_mod.clone()).is_ok());
    assert_eq!(*builder.info_bus().get::<usize>(INFO_CORE1_STACK_SIZE).unwrap(), 8192);
    let code = backend.generate_global_definitions(&app_args, &sub_app).unwrap();
    assert!(code.contains("Stack<8192usize>"));

    // a second size is one too many
    assert!(matches!(pass.run_pass(args, app_mod), Err(PassError::AlreadyPublished)));
}

#[test]
fn only_a_refused_publication_fails() {
    for answer in [None, Some(Ok(()))] {
        let out = run("cores = 2, core1_stack = 2048").ok().unwrap();
        assert_eq!(after_publish(out, answer).ok().unwrap().stack_size, 2048);
    }
    let out = run("").ok().unwrap();
    assert!(matches!(after_publish(out, Some(Err(()))), Err(PassError::AlreadyPublished)));
}

#[test]
fn pass_without_a_bus() {
    let pass = Core1StackPass::new();
    assert_eq!(pass.pass_name(), "Core1Stack");
    let args = "cores = 2, core1_stack = 8192".parse::<TokenStream>().unwrap();
    let out = pass.run_pass(args, syn::parse_str("mod app {}").unwrap()).ok().unwrap();
    assert_eq!(out.stack_size, 8192);
}
