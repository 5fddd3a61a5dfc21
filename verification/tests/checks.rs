//! Runs each check on Rust source text: the text is parsed with `syn` and
//! turned into the library's syntax tree, then the check runs on that tree.

use proc_macro2::{TokenStream, TokenTree as PmTree};
use quote::ToTokens;
use soroban_checks::finding::{Check, Finding, Severity};
use soroban_checks::checks::negative_deposit::extract_first_macro_arg;
use soroban_checks::syntax as ast;
use syn::spanned::Spanned;
use soroban_checks::checks::panic_usage::PanicUsageCheck;
use soroban_checks::checks::authorize_as_contract::AuthorizeAsContractCheck;
use soroban_checks::checks::float_arithmetic::FloatArithmeticCheck;
use soroban_checks::checks::weak_randomness::WeakRandomnessCheck;
use soroban_checks::checks::lock_period_truncation::LockPeriodTruncationCheck;
use soroban_checks::checks::linear_whitelist_scan::LinearWhitelistScanCheck;
use soroban_checks::checks::sequence_nonce::SequenceNonceCheck;
use soroban_checks::checks::amount_mul_overflow::AmountMulOverflowCheck;
use soroban_checks::checks::balance_not_verified_after_transfer::BalanceNotVerifiedAfterTransferCheck;
use soroban_checks::checks::bytes_not_bytesn::BytesNotBytesNCheck;
use soroban_checks::checks::map_key_explosion::MapKeyExplosionCheck;
use soroban_checks::checks::no_std::NoStdCheck;
use soroban_checks::checks::instance_remove_critical::InstanceRemoveCriticalCheck;
use soroban_checks::checks::unauth_sensitive_read::UnauthSensitiveReadCheck;
use soroban_checks::checks::migration_guard::MigrationGuardCheck;
use soroban_checks::checks::ownership_transfer::OwnershipTransferCheck;
use soroban_checks::checks::negative_deposit::NegativeDepositCheck;
use soroban_checks::checks::admin_key_removal::AdminKeyRemovalCheck;
use soroban_checks::checks::timestamp_as_nonce::TimestampAsNonceCheck;
use soroban_checks::checks::while_no_bound::WhileNoBoundCheck;
use soroban_checks::checks::zero_amount::ZeroAmountCheck;
use soroban_checks::checks::storage_type_confusion::StorageTypeConfusionCheck;
use soroban_checks::checks::secp256k1_unchecked::Secp256k1UncheckedCheck;
use soroban_checks::checks::unbounded_input_storage::UnboundedInputStorageCheck;
use soroban_checks::checks::contracttype::MissingContracttypeCheck;
use soroban_checks::checks::ed25519_key_in_temp::Ed25519KeyInTempCheck;
use soroban_checks::checks::unauth_address_in_struct::UnauthAddressInStructCheck;
use soroban_checks::checks::contracterror_attr::ContracterrorAttrCheck;
use soroban_checks::checks::auth_loop_dos::AuthLoopDosCheck;
use soroban_checks::checks::balance_overflow::BalanceOverflowCheck;
use soroban_checks::checks::token_burn_auth::TokenBurnAuthCheck;
use soroban_checks::checks::uncapped_slippage::UncappedSlippageCheck;
use soroban_checks::checks::instance_vec_growth::InstanceVecGrowthCheck;
use soroban_checks::checks::tier_key_collision::TierKeyCollisionCheck;
use soroban_checks::checks::partial_write_on_error::PartialWriteOnErrorCheck;
use soroban_checks::checks::storage_has_get_race::StorageHasGetRaceCheck;
use soroban_checks::checks::nonce_increment_order::NonceIncrementOrderCheck;
use soroban_checks::checks::self_transfer::SelfTransferCheck;
use soroban_checks::checks::token_shared_storage::TokenSharedStorageCheck;
use soroban_checks::checks::storage_key_collision::StorageKeyCollisionCheck;
use soroban_checks::checks::assert_for_auth::AssertForAuthCheck;

fn line_of<T: Spanned>(t: &T) -> usize {
    t.span().start().line
}

fn bx(e: &syn::Expr) -> Box<ast::Expr> {
    Box::new(conv_expr(e))
}

fn conv_path(p: &syn::Path) -> ast::Path {
    ast::Path {
        leading_colon: p.leading_colon.is_some(),
        segments: p
            .segments
            .iter()
            .map(|s| ast::PathSegment {
                ident: s.ident.to_string(),
                has_args: !matches!(s.arguments, syn::PathArguments::None),
            })
            .collect(),
    }
}

fn conv_ty(t: &syn::Type) -> ast::Ty {
    match t {
        syn::Type::Path(tp) => ast::Ty::Path { path: conv_path(&tp.path) },
        syn::Type::Reference(r) => ast::Ty::Reference { elem: Box::new(conv_ty(&r.elem)) },
        _ => ast::Ty::Other,
    }
}

fn conv_pat(p: &syn::Pat) -> ast::Pat {
    match p {
        syn::Pat::Ident(pi) => ast::Pat::Ident { name: pi.ident.to_string(), line: line_of(&pi.ident) },
        syn::Pat::Type(pt) => ast::Pat::Typed { pat: Box::new(conv_pat(&pt.pat)), ty: conv_ty(&pt.ty) },
        _ => ast::Pat::Other,
    }
}

fn conv_lit(l: &syn::Lit) -> ast::Lit {
    match l {
        syn::Lit::Str(s) => ast::Lit::Str { value: s.value() },
        syn::Lit::Int(i) => ast::Lit::Int { suffix: i.suffix().to_string(), digits: i.base10_digits().to_string() },
        syn::Lit::Float(_) => ast::Lit::Float,
        syn::Lit::Bool(_) => ast::Lit::Bool,
        _ => ast::Lit::Other,
    }
}

fn conv_binop(op: &syn::BinOp) -> ast::BinOp {
    match op {
        syn::BinOp::Add(_) => ast::BinOp::Add,
        syn::BinOp::Sub(_) => ast::BinOp::Sub,
        syn::BinOp::Mul(_) => ast::BinOp::Mul,
        syn::BinOp::Div(_) => ast::BinOp::Div,
        syn::BinOp::Rem(_) => ast::BinOp::Rem,
        syn::BinOp::And(_) => ast::BinOp::And,
        syn::BinOp::Or(_) => ast::BinOp::Or,
        syn::BinOp::BitXor(_) => ast::BinOp::BitXor,
        syn::BinOp::BitAnd(_) => ast::BinOp::BitAnd,
        syn::BinOp::BitOr(_) => ast::BinOp::BitOr,
        syn::BinOp::Shl(_) => ast::BinOp::Shl,
        syn::BinOp::Shr(_) => ast::BinOp::Shr,
        syn::BinOp::Eq(_) => ast::BinOp::Eq,
        syn::BinOp::Lt(_) => ast::BinOp::Lt,
        syn::BinOp::Le(_) => ast::BinOp::Le,
        syn::BinOp::Ne(_) => ast::BinOp::Ne,
        syn::BinOp::Ge(_) => ast::BinOp::Ge,
        syn::BinOp::Gt(_) => ast::BinOp::Gt,
        syn::BinOp::AddAssign(_) => ast::BinOp::AddAssign,
        syn::BinOp::SubAssign(_) => ast::BinOp::SubAssign,
        syn::BinOp::MulAssign(_) => ast::BinOp::MulAssign,
        syn::BinOp::DivAssign(_) => ast::BinOp::DivAssign,
        syn::BinOp::RemAssign(_) => ast::BinOp::RemAssign,
        syn::BinOp::BitXorAssign(_) => ast::BinOp::BitXorAssign,
        syn::BinOp::BitAndAssign(_) => ast::BinOp::BitAndAssign,
        syn::BinOp::BitOrAssign(_) => ast::BinOp::BitOrAssign,
        syn::BinOp::ShlAssign(_) => ast::BinOp::ShlAssign,
        syn::BinOp::ShrAssign(_) => ast::BinOp::ShrAssign,
        _ => ast::BinOp::Other,
    }
}

fn first_arg_tokens(tokens: &TokenStream, model: &Vec<ast::TokenTree>) -> TokenStream {
    let n = extract_first_macro_arg(model);
    tokens.clone().into_iter().take(n).collect()
}

fn conv_macro(m: &syn::Macro) -> ast::Macro {
    let tokens: Vec<ast::TokenTree> = m
        .tokens
        .clone()
        .into_iter()
        .map(|tt| match tt {
            PmTree::Ident(i) => ast::TokenTree::Ident { name: i.to_string() },
            PmTree::Punct(p) => ast::TokenTree::Punct { ch: p.as_char() },
            PmTree::Literal(l) => ast::TokenTree::Literal { text: l.to_string() },
            PmTree::Group(_) => ast::TokenTree::Group,
        })
        .collect();
    let first_arg = syn::parse2::<syn::Expr>(first_arg_tokens(&m.tokens, &tokens)).ok().map(|e| Box::new(conv_expr(&e)));
    ast::Macro {
        path: conv_path(&m.path),
        tokens,
        text: m.tokens.to_string(),
        body: m.parse_body::<syn::Expr>().ok().map(|e| Box::new(conv_expr(&e))),
        first_arg,
        line: line_of(m),
    }
}

fn other(children: Vec<&syn::Expr>) -> ast::Expr {
    ast::Expr::Other { children: children.into_iter().map(conv_expr).collect() }
}

fn conv_expr(e: &syn::Expr) -> ast::Expr {
    match e {
        syn::Expr::MethodCall(m) => ast::Expr::MethodCall {
            receiver: bx(&m.receiver),
            method: m.method.to_string(),
            args: m.args.iter().map(conv_expr).collect(),
            line: line_of(m),
        },
        syn::Expr::Call(c) => ast::Expr::Call { func: bx(&c.func), args: c.args.iter().map(conv_expr).collect() },
        syn::Expr::Path(p) => ast::Expr::Path { path: conv_path(&p.path), line: line_of(p) },
        syn::Expr::Lit(l) => ast::Expr::Lit { lit: conv_lit(&l.lit) },
        syn::Expr::Field(f) => ast::Expr::Field {
            base: bx(&f.base),
            member: match &f.member {
                syn::Member::Named(i) => i.to_string(),
                syn::Member::Unnamed(idx) => idx.index.to_string(),
            },
        },
        syn::Expr::Reference(r) => ast::Expr::Reference { expr: bx(&r.expr) },
        syn::Expr::Paren(p) => ast::Expr::Paren { expr: bx(&p.expr) },
        syn::Expr::Binary(b) => ast::Expr::Binary {
            left: bx(&b.left),
            op: conv_binop(&b.op),
            right: bx(&b.right),
            line: line_of(b),
        },
        syn::Expr::Unary(u) => ast::Expr::Unary { expr: bx(&u.expr) },
        syn::Expr::Cast(c) => ast::Expr::Cast { expr: bx(&c.expr), ty: conv_ty(&c.ty), line: line_of(c) },
        syn::Expr::Macro(m) => ast::Expr::Macro { mac: conv_macro(&m.mac) },
        syn::Expr::ForLoop(f) => ast::Expr::ForLoop { pat: conv_pat(&f.pat), expr: bx(&f.expr), body: conv_block(&f.body) },
        syn::Expr::While(w) => ast::Expr::While {
            cond: bx(&w.cond),
            body: conv_block(&w.body),
            cond_text: w.cond.to_token_stream().to_string(),
            line: w.while_token.span.start().line,
        },
        syn::Expr::Loop(l) => ast::Expr::Loop { body: conv_block(&l.body) },
        syn::Expr::If(i) => ast::Expr::If {
            cond: bx(&i.cond),
            then_branch: conv_block(&i.then_branch),
            else_branch: i.else_branch.as_ref().map(|(_, e)| bx(e)),
        },
        syn::Expr::Match(m) => ast::Expr::Match {
            expr: bx(&m.expr),
            arms: m
                .arms
                .iter()
                .map(|a| ast::Arm {
                    pat: conv_pat(&a.pat),
                    guard: a.guard.as_ref().map(|(_, g)| bx(g)),
                    body: bx(&a.body),
                })
                .collect(),
        },
        syn::Expr::Block(b) => ast::Expr::Block { block: conv_block(&b.block) },
        syn::Expr::Unsafe(u) => ast::Expr::Block { block: conv_block(&u.block) },
        syn::Expr::Async(a) => ast::Expr::Block { block: conv_block(&a.block) },
        syn::Expr::TryBlock(t) => ast::Expr::Block { block: conv_block(&t.block) },
        syn::Expr::Const(c) => ast::Expr::Block { block: conv_block(&c.block) },
        syn::Expr::Closure(c) => ast::Expr::Closure { body: bx(&c.body) },
        syn::Expr::Return(r) => ast::Expr::Return { expr: r.expr.as_ref().map(|e| bx(e)) },
        syn::Expr::Break(b) => ast::Expr::Break { expr: b.expr.as_ref().map(|e| bx(e)) },
        syn::Expr::Struct(s) => ast::Expr::Struct {
            path: conv_path(&s.path),
            fields: s
                .fields
                .iter()
                .map(|f| ast::FieldValue {
                    member: match &f.member {
                        syn::Member::Named(i) => i.to_string(),
                        syn::Member::Unnamed(idx) => idx.index.to_string(),
                    },
                    expr: conv_expr(&f.expr),
                })
                .collect(),
            rest: s.rest.as_ref().map(|e| bx(e)),
        },
        syn::Expr::Try(t) => ast::Expr::Try { expr: bx(&t.expr) },
        syn::Expr::Array(a) => other(a.elems.iter().collect()),
        syn::Expr::Assign(a) => other(vec![&a.left, &a.right]),
        syn::Expr::Await(a) => other(vec![&a.base]),
        syn::Expr::Group(g) => other(vec![&g.expr]),
        syn::Expr::Index(i) => other(vec![&i.expr, &i.index]),
        syn::Expr::Let(l) => other(vec![&l.expr]),
        syn::Expr::Range(r) => other(r.start.iter().chain(r.end.iter()).map(|b| &**b).collect()),
        syn::Expr::Repeat(r) => other(vec![&r.expr, &r.len]),
        syn::Expr::Tuple(t) => other(t.elems.iter().collect()),
        syn::Expr::Yield(y) => other(y.expr.iter().map(|b| &**b).collect()),
        syn::Expr::RawAddr(r) => other(vec![&r.expr]),
        _ => other(vec![]),
    }
}

fn conv_local(l: &syn::Local) -> ast::Local {
    ast::Local {
        pat: conv_pat(&l.pat),
        init: l.init.as_ref().map(|i| bx(&i.expr)),
        diverge: l.init.as_ref().and_then(|i| i.diverge.as_ref().map(|(_, e)| bx(e))),
        line: line_of(l),
    }
}

fn conv_stmt(s: &syn::Stmt) -> ast::Stmt {
    let kind = match s {
        syn::Stmt::Local(l) => ast::StmtKind::Local { local: conv_local(l) },
        syn::Stmt::Item(i) => ast::StmtKind::Item { item: Box::new(conv_item(i)) },
        syn::Stmt::Expr(e, semi) => ast::StmtKind::Expr { expr: conv_expr(e), semi: semi.is_some() },
        syn::Stmt::Macro(m) => ast::StmtKind::Macro { mac: conv_macro(&m.mac) },
    };
    ast::Stmt { kind, line: line_of(s) }
}

fn conv_block(b: &syn::Block) -> ast::Block {
    ast::Block { stmts: b.stmts.iter().map(conv_stmt).collect(), close_line: b.brace_token.span.close().start().line }
}

fn conv_attrs(attrs: &[syn::Attribute]) -> Vec<ast::Attribute> {
    attrs
        .iter()
        .map(|a| ast::Attribute {
            path: conv_path(a.path()),
            list_tokens: match &a.meta {
                syn::Meta::List(ml) => Some(ml.tokens.to_string()),
                _ => None,
            },
        })
        .collect()
}

fn conv_fn(
    attrs: &[syn::Attribute],
    vis: &syn::Visibility,
    sig: &syn::Signature,
    block: &syn::Block,
    span: proc_macro2::Span,
) -> ast::FnDef {
    ast::FnDef {
        attrs: conv_attrs(attrs),
        is_pub: matches!(vis, syn::Visibility::Public(_)),
        name: sig.ident.to_string(),
        name_line: line_of(&sig.ident),
        fn_line: sig.fn_token.span.start().line,
        inputs: sig
            .inputs
            .iter()
            .map(|a| match a {
                syn::FnArg::Receiver(_) => ast::FnArg::Receiver,
                syn::FnArg::Typed(pt) => ast::FnArg::Typed { pat: conv_pat(&pt.pat), ty: conv_ty(&pt.ty) },
            })
            .collect(),
        output_is_unit: matches!(sig.output, syn::ReturnType::Default),
        block: conv_block(block),
        span_start: span.start().line,
        span_end: span.end().line,
    }
}

fn conv_use(t: &syn::UseTree) -> ast::UseTree {
    match t {
        syn::UseTree::Path(p) => ast::UseTree::Path {
            ident: p.ident.to_string(),
            line: line_of(&p.ident),
            tree: Box::new(conv_use(&p.tree)),
        },
        syn::UseTree::Name(n) => ast::UseTree::Name { ident: n.ident.to_string() },
        syn::UseTree::Rename(r) => ast::UseTree::Rename { ident: r.ident.to_string() },
        syn::UseTree::Glob(_) => ast::UseTree::Glob,
        syn::UseTree::Group(g) => ast::UseTree::Group { items: g.items.iter().map(conv_use).collect() },
    }
}

fn conv_item(i: &syn::Item) -> ast::Item {
    match i {
        syn::Item::Fn(f) => ast::Item::Fn { func: conv_fn(&f.attrs, &f.vis, &f.sig, &f.block, f.span()) },
        syn::Item::Impl(imp) => ast::Item::Impl {
            imp: ast::ItemImpl {
                attrs: conv_attrs(&imp.attrs),
                items: imp
                    .items
                    .iter()
                    .map(|ii| match ii {
                        syn::ImplItem::Fn(f) => ast::ImplItem::Fn {
                            func: conv_fn(&f.attrs, &f.vis, &f.sig, &f.block, f.span()),
                        },
                        syn::ImplItem::Const(c) => ast::ImplItem::Const { expr: conv_expr(&c.expr) },
                        _ => ast::ImplItem::Other,
                    })
                    .collect(),
            },
        },
        syn::Item::Struct(s) => ast::Item::Struct {
            def: ast::TypeDef { attrs: conv_attrs(&s.attrs), name: s.ident.to_string(), line: line_of(s) },
        },
        syn::Item::Enum(e) => ast::Item::Enum {
            def: ast::TypeDef { attrs: conv_attrs(&e.attrs), name: e.ident.to_string(), line: line_of(e) },
        },
        syn::Item::Use(u) => ast::Item::Use { tree: conv_use(&u.tree) },
        syn::Item::Mod(m) => ast::Item::Mod {
            items: m.content.as_ref().map(|(_, items)| items.iter().map(conv_item).collect()).unwrap_or_default(),
        },
        syn::Item::Trait(t) => ast::Item::Trait {
            items: t
                .items
                .iter()
                .map(|ti| match ti {
                    syn::TraitItem::Fn(f) => ast::TraitItem::Fn { body: f.default.as_ref().map(conv_block) },
                    syn::TraitItem::Const(c) => ast::TraitItem::Const { default: c.default.as_ref().map(|(_, e)| conv_expr(e)) },
                    _ => ast::TraitItem::Other,
                })
                .collect(),
        },
        syn::Item::Const(c) => ast::Item::Const { expr: conv_expr(&c.expr) },
        syn::Item::Static(s) => ast::Item::Const { expr: conv_expr(&s.expr) },
        _ => ast::Item::Other,
    }
}

fn model(file: &syn::File) -> ast::SourceFile {
    ast::SourceFile { items: file.items.iter().map(conv_item).collect() }
}

fn parse_file(code: &str) -> Result<ast::SourceFile, syn::Error> {
    syn::parse_file(code).map(|f| model(&f))
}


// ---------------------------------------------------------------------------
// panic_usage

    #[test]
    fn detects_panic_in_contractimpl() {
        let code = r#"
#[contractimpl]
impl MyContract {
    pub fn risky_op(env: Env) {
        panic!("This is bad");
    }
}
        "#;
        let file = parse_file(code).unwrap();
        let check = PanicUsageCheck;
        let findings = check.run(&file, code);
        assert_eq!(findings.len(), 1);
        assert_eq!(findings[0].check_name, soroban_checks::checks::panic_usage::CHECK_NAME);
        assert_eq!(findings[0].function_name, "risky_op");
        assert_eq!(findings[0].severity, Severity::Low);
    }

    #[test]
    fn detects_unreachable_in_contractimpl() {
        let code = r#"
#[contractimpl]
impl MyContract {
    pub fn impossible(env: Env) {
        unreachable!("This should never happen");
    }
}
        "#;
        let file = parse_file(code).unwrap();
        let check = PanicUsageCheck;
        let findings = check.run(&file, code);
        assert_eq!(findings.len(), 1);
        assert_eq!(findings[0].check_name, soroban_checks::checks::panic_usage::CHECK_NAME);
        assert_eq!(findings[0].severity, Severity::Low);
    }

    #[test]
    fn allows_err_returns() {
        let code = r#"
#[contractimpl]
impl MyContract {
    pub fn safe_op(env: Env) -> Result<bool, Error> {
        Err(Error::InvalidInput)
    }
}
        "#;
        let file = parse_file(code).unwrap();
        let check = PanicUsageCheck;
        let findings = check.run(&file, code);
        assert!(findings.is_empty());
    }

    #[test]
    fn ignores_panic_outside_contractimpl() {
        let code = r#"
fn regular_function() {
    panic!("This is fine outside contracts");
}

#[contractimpl]
impl MyContract {
    pub fn safe(env: Env) {}
}
        "#;
        let file = parse_file(code).unwrap();
        let check = PanicUsageCheck;
        let findings = check.run(&file, code);
        assert!(findings.is_empty());
    }

// ---------------------------------------------------------------------------
// authorize_as_contract

    #[test]
    fn detects_authorize_without_require_auth() {
        let code = r#"
#[contractimpl]
impl MyContract {
    pub fn vulnerable_authorize(env: Env) {
        env.authorize_as_current_contract();
    }
}
        "#;
        let file = parse_file(code).unwrap();
        let check = AuthorizeAsContractCheck;
        let findings = check.run(&file, code);
        assert_eq!(findings.len(), 1);
        assert_eq!(findings[0].check_name, soroban_checks::checks::authorize_as_contract::CHECK_NAME);
        assert_eq!(findings[0].severity, Severity::High);
    }

    #[test]
    fn allows_authorize_with_require_auth() {
        let code = r#"
#[contractimpl]
impl MyContract {
    pub fn safe_authorize(env: Env, admin: Address) {
        env.require_auth(&admin);
        env.authorize_as_current_contract();
    }
}
        "#;
        let file = parse_file(code).unwrap();
        let check = AuthorizeAsContractCheck;
        let findings = check.run(&file, code);
        assert!(findings.is_empty());
    }

    #[test]
    fn allows_authorize_with_require_auth_for_args() {
        let code = r#"
#[contractimpl]
impl MyContract {
    pub fn safe_authorize_args(env: Env, admin: Address) {
        env.require_auth_for_args((admin, 123));
        env.authorize_as_current_contract();
    }
}
        "#;
        let file = parse_file(code).unwrap();
        let check = AuthorizeAsContractCheck;
        let findings = check.run(&file, code);
        assert!(findings.is_empty());
    }

// ---------------------------------------------------------------------------
// float_arithmetic

    #[test]
    fn flags_float_literal_arithmetic() -> Result<(), syn::Error> {
        let file = parse_file(
            r#"
use soroban_sdk::{contractimpl, Env};
pub struct C;
#[contractimpl]
impl C {
    pub fn fee(env: Env, amount: i128) -> f64 {
        let _ = env;
        amount as f64 * 0.01_f64
    }
}
"#,
        )?;
        let hits = FloatArithmeticCheck.run(&file, "");
        assert!(!hits.is_empty());
        assert_eq!(hits[0].severity, Severity::Medium);
        Ok(())
    }

    #[test]
    fn flags_float_cast_arithmetic() -> Result<(), syn::Error> {
        let file = parse_file(
            r#"
use soroban_sdk::{contractimpl, Env};
pub struct C;
#[contractimpl]
impl C {
    pub fn ratio(env: Env, a: i128, b: i128) -> f32 {
        let _ = env;
        (a as f32) / (b as f32)
    }
}
"#,
        )?;
        let hits = FloatArithmeticCheck.run(&file, "");
        assert!(!hits.is_empty());
        Ok(())
    }

    #[test]
    fn passes_integer_only_arithmetic() -> Result<(), syn::Error> {
        let file = parse_file(
            r#"
use soroban_sdk::{contractimpl, Env};
pub struct C;
#[contractimpl]
impl C {
    pub fn fee(env: Env, amount: i128) -> i128 {
        let _ = env;
        amount * 100 / 10000
    }
}
"#,
        )?;
        let hits = FloatArithmeticCheck.run(&file, "");
        assert!(hits.is_empty());
        Ok(())
    }

// ---------------------------------------------------------------------------
// weak_randomness

    #[test]
    fn flags_timestamp_in_arithmetic() -> Result<(), syn::Error> {
        let file = parse_file(
            r#"
use soroban_sdk::{contractimpl, Env};
pub struct C;
#[contractimpl]
impl C {
    pub fn roll(env: Env) -> u64 {
        env.ledger().timestamp() % 6
    }
}
"#,
        )?;
        let hits = WeakRandomnessCheck.run(&file, "");
        assert_eq!(hits.len(), 1);
        assert_eq!(hits[0].severity, Severity::Medium);
        Ok(())
    }

    #[test]
    fn flags_sequence_stored_as_seed() -> Result<(), syn::Error> {
        let file = parse_file(
            r#"
use soroban_sdk::{contractimpl, Env, Symbol};
pub struct C;
#[contractimpl]
impl C {
    pub fn init(env: Env) {
        env.storage().instance().set(&Symbol::short("seed"), &env.ledger().sequence());
    }
}
"#,
        )?;
        let hits = WeakRandomnessCheck.run(&file, "");
        assert_eq!(hits.len(), 1);
        Ok(())
    }

    #[test]
    fn passes_safe_contract() -> Result<(), syn::Error> {
        let file = parse_file(
            r#"
use soroban_sdk::{contractimpl, Env};
pub struct C;
#[contractimpl]
impl C {
    pub fn is_expired(env: Env, deadline: u64) -> bool {
        env.ledger().timestamp() > deadline
    }
}
"#,
        )?;
        // Comparison (>) is not arithmetic — should not flag.
        let hits = WeakRandomnessCheck.run(&file, "");
        assert!(hits.is_empty());
        Ok(())
    }

// ---------------------------------------------------------------------------
// lock_period_truncation

    #[test]
    fn flags_cast_to_u32() -> Result<(), syn::Error> {
        let file = parse_file(
            r#"
pub struct C;
#[contractimpl]
impl C {
    pub fn lock(env: soroban_sdk::Env, period: u64) {
        let unlock = (env.ledger().timestamp() + period) as u32;
        env.storage().instance().set(&1u32, &unlock);
    }
}
"#,
        )?;
        let hits = LockPeriodTruncationCheck.run(&file, "");
        assert_eq!(hits.len(), 1);
        assert_eq!(hits[0].severity, Severity::Medium);
        Ok(())
    }

    #[test]
    fn flags_u32_typed_binding() -> Result<(), syn::Error> {
        let file = parse_file(
            r#"
pub struct C;
#[contractimpl]
impl C {
    pub fn lock(env: soroban_sdk::Env, period: u64) {
        let unlock: u32 = env.ledger().timestamp() + period;
        env.storage().instance().set(&1u32, &unlock);
    }
}
"#,
        )?;
        let hits = LockPeriodTruncationCheck.run(&file, "");
        assert_eq!(hits.len(), 1);
        Ok(())
    }

    #[test]
    fn passes_u64_binding() -> Result<(), syn::Error> {
        let file = parse_file(
            r#"
pub struct C;
#[contractimpl]
impl C {
    pub fn lock(env: soroban_sdk::Env, period: u64) {
        let unlock: u64 = env.ledger().timestamp() + period;
        env.storage().instance().set(&1u32, &unlock);
    }
}
"#,
        )?;
        let hits = LockPeriodTruncationCheck.run(&file, "");
        assert!(hits.is_empty());
        Ok(())
    }

    #[test]
    fn lock_period_truncation_ignores_non_contractimpl() -> Result<(), syn::Error> {
        let file = parse_file(
            r#"
pub struct C;
impl C {
    pub fn lock(env: soroban_sdk::Env, period: u64) {
        let unlock: u32 = env.ledger().timestamp() + period;
    }
}
"#,
        )?;
        let hits = LockPeriodTruncationCheck.run(&file, "");
        assert!(hits.is_empty());
        Ok(())
    }

// ---------------------------------------------------------------------------
// linear_whitelist_scan

    #[test]
    fn flags_iter_any_on_storage_vec() -> Result<(), syn::Error> {
        let file = parse_file(
            r#"
pub struct C;
#[contractimpl]
impl C {
    pub fn is_allowed(env: soroban_sdk::Env, caller: soroban_sdk::Address) -> bool {
        let list: soroban_sdk::Vec<soroban_sdk::Address> =
            env.storage().persistent().get(&1u32).unwrap_or_default();
        list.iter().any(|a| a == caller)
    }
}
"#,
        )?;
        let hits = LinearWhitelistScanCheck.run(&file, "");
        assert_eq!(hits.len(), 1);
        assert_eq!(hits[0].severity, Severity::Medium);
        Ok(())
    }

    #[test]
    fn passes_map_contains_key() -> Result<(), syn::Error> {
        let file = parse_file(
            r#"
pub struct C;
#[contractimpl]
impl C {
    pub fn is_allowed(env: soroban_sdk::Env, caller: soroban_sdk::Address) -> bool {
        let map: soroban_sdk::Map<soroban_sdk::Address, bool> =
            env.storage().persistent().get(&1u32).unwrap_or_default();
        map.contains_key(caller)
    }
}
"#,
        )?;
        let hits = LinearWhitelistScanCheck.run(&file, "");
        assert!(hits.is_empty());
        Ok(())
    }

    #[test]
    fn linear_whitelist_scan_ignores_non_contractimpl() -> Result<(), syn::Error> {
        let file = parse_file(
            r#"
pub struct C;
impl C {
    pub fn check(env: soroban_sdk::Env, caller: soroban_sdk::Address) -> bool {
        let list: soroban_sdk::Vec<soroban_sdk::Address> =
            env.storage().persistent().get(&1u32).unwrap_or_default();
        list.iter().any(|a| a == caller)
    }
}
"#,
        )?;
        let hits = LinearWhitelistScanCheck.run(&file, "");
        assert!(hits.is_empty());
        Ok(())
    }

// ---------------------------------------------------------------------------
// sequence_nonce

    #[test]
    fn detects_sequence_comparison_without_persistent_set() {
        let code = r#"
#[contractimpl]
impl MyContract {
    pub fn vulnerable_nonce(env: Env, nonce: u32) {
        if env.ledger().sequence() == nonce {
            // do something
        }
    }
}
        "#;
        let file = parse_file(code).unwrap();
        let check = SequenceNonceCheck;
        let findings = check.run(&file, code);
        assert_eq!(findings.len(), 1);
        assert_eq!(findings[0].check_name, soroban_checks::checks::sequence_nonce::CHECK_NAME);
        assert_eq!(findings[0].severity, Severity::Medium);
    }

    #[test]
    fn allows_sequence_comparison_with_persistent_set() {
        let code = r#"
#[contractimpl]
impl MyContract {
    pub fn safe_nonce(env: Env, nonce: u32) {
        if env.ledger().sequence() == nonce {
            env.storage().persistent().set(&DataKey::LastNonce, &nonce);
        }
    }
}
        "#;
        let file = parse_file(code).unwrap();
        let check = SequenceNonceCheck;
        let findings = check.run(&file, code);
        assert!(findings.is_empty());
    }

    #[test]
    fn ignores_sequence_without_comparison() {
        let code = r#"
#[contractimpl]
impl MyContract {
    pub fn just_sequence(env: Env) {
        let seq = env.ledger().sequence();
    }
}
        "#;
        let file = parse_file(code).unwrap();
        let check = SequenceNonceCheck;
        let findings = check.run(&file, code);
        assert!(findings.is_empty());
    }

// ---------------------------------------------------------------------------
// amount_mul_overflow

    fn amount_mul_overflow_run(src: &str) -> Vec<Finding> {
        AmountMulOverflowCheck.run(&parse_file(src).unwrap(), src)
    }

    #[test]
    fn flags_transfer_amount_binary_expression() {
        let hits = amount_mul_overflow_run(r#"
use soroban_sdk::{contractimpl, token, Address, Env};

pub struct C;

#[contractimpl]
impl C {
    pub fn pay(env: Env, token: Address, from: Address, to: Address, price: i128, qty: i128) {
        let client = token::Client::new(&env, &token);
        client.transfer(&from, &to, &(price * qty));
    }
}
"#);
        assert_eq!(hits.len(), 1);
        assert_eq!(hits[0].severity, Severity::High);
    }

    #[test]
    fn flags_burn_amount_binary_expression() {
        let hits = amount_mul_overflow_run(r#"
use soroban_sdk::{contractimpl, token, Address, Env};

pub struct C;

#[contractimpl]
impl C {
    pub fn burn(env: Env, token: Address, from: Address, price: i128, qty: i128) {
        let client = token::Client::new(&env, &token);
        client.burn(&from, &(price * qty));
    }
}
"#);
        assert_eq!(hits.len(), 1);
    }

    #[test]
    fn passes_with_checked_mul_before_transfer() {
        let hits = amount_mul_overflow_run(r#"
use soroban_sdk::{contractimpl, token, Address, Env};

pub struct C;

#[contractimpl]
impl C {
    pub fn pay(env: Env, token: Address, from: Address, to: Address, price: i128, qty: i128) {
        let amount = price.checked_mul(qty).expect("overflow");
        let client = token::Client::new(&env, &token);
        client.transfer(&from, &to, &amount);
    }
}
"#);
        assert!(hits.is_empty());
    }

    #[test]
    fn ignores_env_transfer() {
        let hits = amount_mul_overflow_run(r#"
use soroban_sdk::{contractimpl, Address, Env};

pub struct C;

#[contractimpl]
impl C {
    pub fn pay(env: Env, to: Address, price: i128, qty: i128) {
        env.transfer(&to, &(price * qty));
    }
}
"#);
        assert!(hits.is_empty());
    }

// ---------------------------------------------------------------------------
// balance_not_verified_after_transfer

    fn balance_not_verified_after_transfer_run(src: &str) -> Vec<Finding> {
        BalanceNotVerifiedAfterTransferCheck.run(&parse_file(src).unwrap(), src)
    }

    #[test]
    fn flags_transfer_without_balance_check() {
        let hits = balance_not_verified_after_transfer_run(r#"
pub struct C;
#[contractimpl]
impl C {
    pub fn pay(env: Env, token: Address, from: Address, to: Address, amount: i128) {
        let client = token::Client::new(&env, &token);
        client.transfer(&from, &to, &amount);
    }
}
"#);
        assert_eq!(hits.len(), 1);
        assert_eq!(hits[0].check_name, soroban_checks::checks::balance_not_verified_after_transfer::CHECK_NAME);
        assert_eq!(hits[0].severity, Severity::Medium);
        assert_eq!(hits[0].function_name, "pay");
    }

    #[test]
    fn flags_inline_client_transfer_without_balance_check() {
        let hits = balance_not_verified_after_transfer_run(r#"
pub struct C;
#[contractimpl]
impl C {
    pub fn pay(env: Env, token: Address, from: Address, to: Address, amount: i128) {
        token::Client::new(&env, &token).transfer(&from, &to, &amount);
    }
}
"#);
        assert_eq!(hits.len(), 1);
        assert_eq!(hits[0].function_name, "pay");
    }

    #[test]
    fn balance_not_verified_after_transfer_ignores_non_contractimpl_impl() {
        let hits = balance_not_verified_after_transfer_run(r#"
pub struct C;
impl C {
    pub fn pay(env: Env, token: Address, from: Address, to: Address, amount: i128) {
        let client = token::Client::new(&env, &token);
        client.transfer(&from, &to, &amount);
    }
}
"#);
        assert!(hits.is_empty());
    }

    #[test]
    fn ignores_env_transfer_not_token_client() {
        let hits = balance_not_verified_after_transfer_run(r#"
pub struct C;
#[contractimpl]
impl C {
    pub fn pay(env: Env, to: Address, amount: i128) {
        env.transfer(&to, &amount);
    }
}
"#);
        assert!(hits.is_empty());
    }

// ---------------------------------------------------------------------------
// bytes_not_bytesn

    #[test]
    fn flags_bytes_for_hash_param() -> Result<(), syn::Error> {
        let src = r#"
use soroban_sdk::{contractimpl, Bytes, Env};
pub struct C;
#[contractimpl]
impl C {
    pub fn verify(env: Env, hash: Bytes) -> bool { true }
}
"#;
        let file = parse_file(src)?;
        let hits = BytesNotBytesNCheck.run(&file, "");
        assert_eq!(hits.len(), 1);
        assert_eq!(hits[0].severity, Severity::Medium);
        assert!(hits[0].description.contains("BytesN"));
        Ok(())
    }

    #[test]
    fn flags_bytes_for_signature_param() -> Result<(), syn::Error> {
        let src = r#"
use soroban_sdk::{contractimpl, Bytes, Env};
pub struct C;
#[contractimpl]
impl C {
    pub fn submit(env: Env, signature: Bytes) {}
}
"#;
        let file = parse_file(src)?;
        let hits = BytesNotBytesNCheck.run(&file, "");
        assert_eq!(hits.len(), 1);
        Ok(())
    }

    #[test]
    fn no_finding_for_bytesn_param() -> Result<(), syn::Error> {
        let src = r#"
use soroban_sdk::{contractimpl, BytesN, Env};
pub struct C;
#[contractimpl]
impl C {
    pub fn verify(env: Env, hash: BytesN<32>) -> bool { true }
}
"#;
        let file = parse_file(src)?;
        let hits = BytesNotBytesNCheck.run(&file, "");
        assert!(hits.is_empty(), "{hits:?}");
        Ok(())
    }

    #[test]
    fn no_finding_for_non_sensitive_bytes_param() -> Result<(), syn::Error> {
        let src = r#"
use soroban_sdk::{contractimpl, Bytes, Env};
pub struct C;
#[contractimpl]
impl C {
    pub fn store(env: Env, data: Bytes) {}
}
"#;
        let file = parse_file(src)?;
        let hits = BytesNotBytesNCheck.run(&file, "");
        assert!(hits.is_empty());
        Ok(())
    }

// ---------------------------------------------------------------------------
// map_key_explosion

    #[test]
    fn detects_excessive_string_keys() {
        let code = r#"
#[contractimpl]
impl MyContract {
    pub fn vulnerable_key_explosion(env: Env) {
        let mut map = Map::new(&env);
        map.set("key1", 1);
        map.set("key2", 2);
        map.set("key3", 3);
        map.set("key4", 4);
        map.set("key5", 5);
        map.set("key6", 6);
        map.set("key7", 7);
        map.set("key8", 8);
        map.set("key9", 9); // This makes it 9 keys
    }
}
        "#;
        let file = parse_file(code).unwrap();
        let check = MapKeyExplosionCheck;
        let findings = check.run(&file, code);
        assert_eq!(findings.len(), 1);
        assert_eq!(findings[0].check_name, soroban_checks::checks::map_key_explosion::CHECK_NAME);
        assert_eq!(findings[0].severity, Severity::Low);
    }

    #[test]
    fn allows_few_string_keys() {
        let code = r#"
#[contractimpl]
impl MyContract {
    pub fn safe_few_keys(env: Env) {
        let mut map = Map::new(&env);
        map.set("key1", 1);
        map.set("key2", 2);
        map.set("key3", 3);
    }
}
        "#;
        let file = parse_file(code).unwrap();
        let check = MapKeyExplosionCheck;
        let findings = check.run(&file, code);
        assert!(findings.is_empty());
    }

    #[test]
    fn allows_non_string_keys() {
        let code = r#"
#[contractimpl]
impl MyContract {
    pub fn safe_typed_keys(env: Env) {
        let mut map = Map::new(&env);
        map.set(Key::First, 1);
        map.set(Key::Second, 2);
        map.set(Key::Third, 3);
    }
}
        "#;
        let file = parse_file(code).unwrap();
        let check = MapKeyExplosionCheck;
        let findings = check.run(&file, code);
        assert!(findings.is_empty());
    }

    #[test]
    fn detects_exactly_eight_keys() {
        let code = r#"
#[contractimpl]
impl MyContract {
    pub fn exactly_eight_keys(env: Env) {
        let mut map = Map::new(&env);
        map.set("key1", 1);
        map.set("key2", 2);
        map.set("key3", 3);
        map.set("key4", 4);
        map.set("key5", 5);
        map.set("key6", 6);
        map.set("key7", 7);
        map.set("key8", 8);
    }
}
        "#;
        let file = parse_file(code).unwrap();
        let check = MapKeyExplosionCheck;
        let findings = check.run(&file, code);
        assert!(findings.is_empty()); // Exactly 8 should be allowed
    }

// ---------------------------------------------------------------------------
// no_std

    #[test]
    fn flags_use_std() -> Result<(), syn::Error> {
        let file = parse_file(
            r#"
use std::collections::HashMap;
pub struct C;
"#,
        )?;
        let hits = NoStdCheck.run(&file, "");
        assert_eq!(hits.len(), 1);
        assert_eq!(hits[0].severity, Severity::Medium);
        Ok(())
    }

    #[test]
    fn flags_std_path_expr() -> Result<(), syn::Error> {
        let file = parse_file(
            r#"
pub fn f() {
    let _m = std::collections::HashMap::<u32, u32>::new();
}
"#,
        )?;
        let hits = NoStdCheck.run(&file, "");
        assert!(!hits.is_empty());
        Ok(())
    }

    #[test]
    fn passes_no_std_contract() -> Result<(), syn::Error> {
        let file = parse_file(
            r#"
#![no_std]
use soroban_sdk::{contract, contractimpl, Env};
pub struct C;
#[contractimpl]
impl C {
    pub fn hello(_env: Env) {}
}
"#,
        )?;
        let hits = NoStdCheck.run(&file, "");
        assert!(hits.is_empty());
        Ok(())
    }

// ---------------------------------------------------------------------------
// instance_remove_critical

    #[test]
    fn detects_remove_admin_without_auth() {
        let code = r#"
use soroban_sdk::{contract, contractimpl, Env, Symbol};

#[contract]
pub struct Contract;

#[contractimpl]
impl Contract {
    pub fn remove_admin(env: Env) {
        env.storage().instance().remove(&Symbol::new(&env, "admin"));
    }
}
        "#;
        let file = parse_file(code).unwrap();
        let check = InstanceRemoveCriticalCheck;
        let findings = check.run(&file, code);
        assert_eq!(findings.len(), 1);
        assert_eq!(findings[0].severity, Severity::High);
        assert_eq!(findings[0].check_name, soroban_checks::checks::instance_remove_critical::CHECK_NAME);
    }

    #[test]
    fn allows_remove_admin_with_auth() {
        let code = r#"
use soroban_sdk::{contract, contractimpl, Env, Symbol};

#[contract]
pub struct Contract;

#[contractimpl]
impl Contract {
    pub fn remove_admin(env: Env) {
        env.require_auth();
        env.storage().instance().remove(&Symbol::new(&env, "admin"));
    }
}
        "#;
        let file = parse_file(code).unwrap();
        let check = InstanceRemoveCriticalCheck;
        let findings = check.run(&file, code);
        assert!(findings.is_empty());
    }

    #[test]
    fn detects_remove_owner_without_auth() {
        let code = r#"
use soroban_sdk::{contract, contractimpl, Env, Symbol};

#[contract]
pub struct Contract;

#[contractimpl]
impl Contract {
    pub fn clear_owner(env: Env) {
        env.storage().instance().remove(&Symbol::new(&env, "owner"));
    }
}
        "#;
        let file = parse_file(code).unwrap();
        let check = InstanceRemoveCriticalCheck;
        let findings = check.run(&file, code);
        assert_eq!(findings.len(), 1);
    }

    #[test]
    fn allows_remove_non_critical_key() {
        let code = r#"
use soroban_sdk::{contract, contractimpl, Env, Symbol};

#[contract]
pub struct Contract;

#[contractimpl]
impl Contract {
    pub fn clear_cache(env: Env) {
        env.storage().instance().remove(&Symbol::new(&env, "cache"));
    }
}
        "#;
        let file = parse_file(code).unwrap();
        let check = InstanceRemoveCriticalCheck;
        let findings = check.run(&file, code);
        assert!(findings.is_empty());
    }

// ---------------------------------------------------------------------------
// unauth_sensitive_read

    #[test]
    fn detects_unauth_admin_read() {
        let code = r#"
use soroban_sdk::{contract, contractimpl, Address, Env, Symbol};

#[contract]
pub struct Contract;

#[contractimpl]
impl Contract {
    pub fn get_admin(env: Env) -> Address {
        env.storage().instance().get(&Symbol::new(&env, "admin")).unwrap()
    }
}
        "#;
        let file = parse_file(code).unwrap();
        let check = UnauthSensitiveReadCheck;
        let findings = check.run(&file, code);
        assert_eq!(findings.len(), 1);
        assert_eq!(findings[0].severity, Severity::Medium);
        assert_eq!(findings[0].check_name, soroban_checks::checks::unauth_sensitive_read::CHECK_NAME);
    }

    #[test]
    fn allows_auth_admin_read() {
        let code = r#"
use soroban_sdk::{contract, contractimpl, Address, Env, Symbol};

#[contract]
pub struct Contract;

#[contractimpl]
impl Contract {
    pub fn get_admin(env: Env) -> Address {
        env.require_auth();
        env.storage().instance().get(&Symbol::new(&env, "admin")).unwrap()
    }
}
        "#;
        let file = parse_file(code).unwrap();
        let check = UnauthSensitiveReadCheck;
        let findings = check.run(&file, code);
        assert!(findings.is_empty());
    }

    #[test]
    fn detects_secret_key_read() {
        let code = r#"
use soroban_sdk::{contract, contractimpl, Env, Symbol};

#[contract]
pub struct Contract;

#[contractimpl]
impl Contract {
    pub fn get_secret(env: Env) -> u64 {
        env.storage().persistent().get(&Symbol::new(&env, "secret_key")).unwrap()
    }
}
        "#;
        let file = parse_file(code).unwrap();
        let check = UnauthSensitiveReadCheck;
        let findings = check.run(&file, code);
        assert_eq!(findings.len(), 1);
    }

    #[test]
    fn allows_non_sensitive_read() {
        let code = r#"
use soroban_sdk::{contract, contractimpl, Env, Symbol};

#[contract]
pub struct Contract;

#[contractimpl]
impl Contract {
    pub fn get_balance(env: Env) -> i128 {
        env.storage().persistent().get(&Symbol::new(&env, "balance")).unwrap()
    }
}
        "#;
        let file = parse_file(code).unwrap();
        let check = UnauthSensitiveReadCheck;
        let findings = check.run(&file, code);
        assert!(findings.is_empty());
    }

    #[test]
    fn allows_void_function() {
        let code = r#"
use soroban_sdk::{contract, contractimpl, Env, Symbol};

#[contract]
pub struct Contract;

#[contractimpl]
impl Contract {
    pub fn log_admin(env: Env) {
        let _admin = env.storage().instance().get(&Symbol::new(&env, "admin"));
    }
}
        "#;
        let file = parse_file(code).unwrap();
        let check = UnauthSensitiveReadCheck;
        let findings = check.run(&file, code);
        assert!(findings.is_empty());
    }

// ---------------------------------------------------------------------------
// migration_guard

    #[test]
    fn flags_migrate_without_version_check() -> Result<(), syn::Error> {
        let src = r#"
use soroban_sdk::{contractimpl, symbol_short, Env};
pub struct C;
const OLD_KEY: soroban_sdk::Symbol = symbol_short!("old");
const NEW_KEY: soroban_sdk::Symbol = symbol_short!("new");
#[contractimpl]
impl C {
    pub fn migrate(env: Env) {
        let val: u32 = env.storage().persistent().get(&OLD_KEY).unwrap();
        env.storage().persistent().set(&NEW_KEY, &val);
        env.storage().persistent().remove(&OLD_KEY);
    }
}
"#;
        let file = parse_file(src)?;
        let hits = MigrationGuardCheck.run(&file, "");
        assert_eq!(hits.len(), 1);
        assert_eq!(hits[0].severity, Severity::High);
        assert!(hits[0].description.contains("version/schema sentinel"));
        Ok(())
    }

    #[test]
    fn flags_upgrade_storage_without_version_check() -> Result<(), syn::Error> {
        let src = r#"
use soroban_sdk::{contractimpl, symbol_short, Env};
pub struct C;
const KEY: soroban_sdk::Symbol = symbol_short!("k");
#[contractimpl]
impl C {
    pub fn upgrade_storage(env: Env) {
        env.storage().instance().set(&KEY, &42u32);
    }
}
"#;
        let file = parse_file(src)?;
        let hits = MigrationGuardCheck.run(&file, "");
        assert_eq!(hits.len(), 1);
        Ok(())
    }

    #[test]
    fn no_finding_when_version_read_precedes_set() -> Result<(), syn::Error> {
        let src = r#"
use soroban_sdk::{contractimpl, symbol_short, Env};
pub struct C;
const VERSION_KEY: soroban_sdk::Symbol = symbol_short!("version");
const DATA_KEY: soroban_sdk::Symbol = symbol_short!("data");
#[contractimpl]
impl C {
    pub fn migrate(env: Env) {
        let v: u32 = env.storage().instance().get(&VERSION_KEY).unwrap();
        assert_eq!(v, 1u32);
        env.storage().instance().set(&DATA_KEY, &99u32);
        env.storage().instance().set(&VERSION_KEY, &2u32);
    }
}
"#;
        let file = parse_file(src)?;
        let hits = MigrationGuardCheck.run(&file, "");
        assert!(hits.is_empty(), "{hits:?}");
        Ok(())
    }

    #[test]
    fn no_finding_for_non_migration_fn() -> Result<(), syn::Error> {
        let src = r#"
use soroban_sdk::{contractimpl, symbol_short, Env};
pub struct C;
const KEY: soroban_sdk::Symbol = symbol_short!("k");
#[contractimpl]
impl C {
    pub fn update(env: Env) {
        env.storage().persistent().set(&KEY, &1u32);
    }
}
"#;
        let file = parse_file(src)?;
        let hits = MigrationGuardCheck.run(&file, "");
        assert!(hits.is_empty());
        Ok(())
    }

    #[test]
    fn flags_migrate_v2_without_version_check() -> Result<(), syn::Error> {
        let src = r#"
use soroban_sdk::{contractimpl, symbol_short, Env};
pub struct C;
const KEY: soroban_sdk::Symbol = symbol_short!("k");
#[contractimpl]
impl C {
    pub fn migrate_v2(env: Env) {
        env.storage().persistent().set(&KEY, &2u32);
    }
}
"#;
        let file = parse_file(src)?;
        let hits = MigrationGuardCheck.run(&file, "");
        assert_eq!(hits.len(), 1);
        Ok(())
    }

    #[test]
    fn no_finding_when_no_storage_writes() -> Result<(), syn::Error> {
        let src = r#"
use soroban_sdk::{contractimpl, Env};
pub struct C;
#[contractimpl]
impl C {
    pub fn migrate(env: Env) {
        // read-only migration check
        let _v: Option<u32> = env.storage().instance().get(&soroban_sdk::symbol_short!("k"));
    }
}
"#;
        let file = parse_file(src)?;
        let hits = MigrationGuardCheck.run(&file, "");
        assert!(hits.is_empty());
        Ok(())
    }

// ---------------------------------------------------------------------------
// ownership_transfer

    #[test]
    fn flags_accept_ownership_without_pending_check() -> Result<(), syn::Error> {
        let src = r#"
use soroban_sdk::{contractimpl, symbol_short, Address, Env};
pub struct C;
#[contractimpl]
impl C {
    pub fn accept_ownership(env: Env, new_owner: Address) {
        // BUG: writes admin without reading pending_owner first
        env.storage().instance().set(&symbol_short!("admin"), &new_owner);
    }
}
"#;
        let file = parse_file(src)?;
        let hits = OwnershipTransferCheck.run(&file, "");
        assert_eq!(hits.len(), 1);
        assert_eq!(hits[0].severity, Severity::High);
        assert!(hits[0].description.contains("pending-owner"));
        Ok(())
    }

    #[test]
    fn flags_claim_ownership_without_pending_check() -> Result<(), syn::Error> {
        let src = r#"
use soroban_sdk::{contractimpl, symbol_short, Address, Env};
pub struct C;
#[contractimpl]
impl C {
    pub fn claim_ownership(env: Env, caller: Address) {
        env.storage().persistent().set(&symbol_short!("owner"), &caller);
    }
}
"#;
        let file = parse_file(src)?;
        let hits = OwnershipTransferCheck.run(&file, "");
        assert_eq!(hits.len(), 1);
        Ok(())
    }

    #[test]
    fn no_finding_when_pending_read_precedes_write() -> Result<(), syn::Error> {
        let src = r#"
use soroban_sdk::{contractimpl, symbol_short, Address, Env};
pub struct C;
#[contractimpl]
impl C {
    pub fn accept_ownership(env: Env) {
        let pending: Address = env.storage().instance()
            .get(&symbol_short!("pending_owner")).unwrap();
        env.require_auth();
        env.storage().instance().set(&symbol_short!("admin"), &pending);
    }
}
"#;
        let file = parse_file(src)?;
        let hits = OwnershipTransferCheck.run(&file, "");
        assert!(hits.is_empty(), "{hits:?}");
        Ok(())
    }

    #[test]
    fn no_finding_when_no_admin_write() -> Result<(), syn::Error> {
        let src = r#"
use soroban_sdk::{contractimpl, symbol_short, Address, Env};
pub struct C;
#[contractimpl]
impl C {
    pub fn accept_ownership(env: Env) -> Address {
        env.storage().instance().get(&symbol_short!("pending_owner")).unwrap()
    }
}
"#;
        let file = parse_file(src)?;
        let hits = OwnershipTransferCheck.run(&file, "");
        assert!(hits.is_empty());
        Ok(())
    }

    #[test]
    fn no_finding_for_private_fn() -> Result<(), syn::Error> {
        let src = r#"
use soroban_sdk::{contractimpl, symbol_short, Address, Env};
pub struct C;
#[contractimpl]
impl C {
    fn accept_ownership(env: Env, new_owner: Address) {
        env.storage().instance().set(&symbol_short!("admin"), &new_owner);
    }
}
"#;
        let file = parse_file(src)?;
        let hits = OwnershipTransferCheck.run(&file, "");
        assert!(hits.is_empty());
        Ok(())
    }

// ---------------------------------------------------------------------------
// negative_deposit

    #[test]
    fn flags_deposit_without_positive_guard() -> Result<(), syn::Error> {
        let src = r#"
use soroban_sdk::{contractimpl, Address, Env};
pub struct C;
#[contractimpl]
impl C {
    pub fn deposit(env: Env, from: Address, amount: i128) {
        let bal: i128 = env.storage().persistent().get(&from).unwrap_or(0);
        env.storage().persistent().set(&from, &(bal + amount));
    }
}
"#;
        let file = parse_file(src)?;
        let hits = NegativeDepositCheck.run(&file, "");
        assert_eq!(hits.len(), 1);
        assert_eq!(hits[0].severity, Severity::High);
        assert!(hits[0].description.contains("amount > 0"));
        Ok(())
    }

    #[test]
    fn no_finding_when_positive_guard_present() -> Result<(), syn::Error> {
        let src = r#"
use soroban_sdk::{contractimpl, Address, Env};
pub struct C;
#[contractimpl]
impl C {
    pub fn deposit(env: Env, from: Address, amount: i128) {
        assert!(amount > 0, "amount must be positive");
        let bal: i128 = env.storage().persistent().get(&from).unwrap_or(0);
        env.storage().persistent().set(&from, &(bal + amount));
    }
}
"#;
        let file = parse_file(src)?;
        let hits = NegativeDepositCheck.run(&file, "");
        assert!(hits.is_empty(), "{hits:?}");
        Ok(())
    }

    #[test]
    fn flags_fund_fn() -> Result<(), syn::Error> {
        let src = r#"
use soroban_sdk::{contractimpl, Address, Env};
pub struct C;
#[contractimpl]
impl C {
    pub fn fund(env: Env, account: Address, amount: i128) {
        env.storage().persistent().set(&account, &amount);
    }
}
"#;
        let file = parse_file(src)?;
        let hits = NegativeDepositCheck.run(&file, "");
        assert_eq!(hits.len(), 1);
        Ok(())
    }

    #[test]
    fn no_finding_for_non_deposit_fn() -> Result<(), syn::Error> {
        let src = r#"
use soroban_sdk::{contractimpl, Address, Env};
pub struct C;
#[contractimpl]
impl C {
    pub fn transfer(env: Env, from: Address, amount: i128) {
        env.storage().persistent().set(&from, &amount);
    }
}
"#;
        let file = parse_file(src)?;
        let hits = NegativeDepositCheck.run(&file, "");
        assert!(hits.is_empty());
        Ok(())
    }

    #[test]
    fn no_finding_when_no_i128_param() -> Result<(), syn::Error> {
        let src = r#"
use soroban_sdk::{contractimpl, Address, Env};
pub struct C;
#[contractimpl]
impl C {
    pub fn deposit(env: Env, from: Address) {
        env.storage().persistent().set(&from, &true);
    }
}
"#;
        let file = parse_file(src)?;
        let hits = NegativeDepositCheck.run(&file, "");
        assert!(hits.is_empty());
        Ok(())
    }

// ---------------------------------------------------------------------------
// admin_key_removal

    #[test]
    fn flags_remove_admin_without_set() -> Result<(), syn::Error> {
        let file = parse_file(
            r#"
use soroban_sdk::{contractimpl, symbol_short, Env};
pub struct C;
#[contractimpl]
impl C {
    pub fn remove_admin(env: Env) {
        let key = symbol_short!("admin");
        env.storage().persistent().remove(&key);
    }
}
"#,
        )?;
        let hits = AdminKeyRemovalCheck.run(&file, "");
        assert_eq!(hits.len(), 1);
        assert_eq!(hits[0].severity, Severity::High);
        Ok(())
    }

    #[test]
    fn passes_remove_followed_by_set() -> Result<(), syn::Error> {
        let file = parse_file(
            r#"
use soroban_sdk::{contractimpl, symbol_short, Address, Env};
pub struct C;
#[contractimpl]
impl C {
    pub fn rotate_admin(env: Env, new_admin: Address) {
        let key = symbol_short!("admin");
        env.storage().persistent().remove(&key);
        env.storage().persistent().set(&key, &new_admin);
    }
}
"#,
        )?;
        let hits = AdminKeyRemovalCheck.run(&file, "");
        assert!(hits.is_empty());
        Ok(())
    }

    #[test]
    fn flags_owner_key_removal() -> Result<(), syn::Error> {
        let file = parse_file(
            r#"
use soroban_sdk::{contractimpl, Env};
pub struct C;
#[contractimpl]
impl C {
    pub fn clear_owner(env: Env) {
        env.storage().persistent().remove(&"owner");
    }
}
"#,
        )?;
        let hits = AdminKeyRemovalCheck.run(&file, "");
        assert_eq!(hits.len(), 1);
        Ok(())
    }

    #[test]
    fn ignores_non_admin_key_removal() -> Result<(), syn::Error> {
        let file = parse_file(
            r#"
use soroban_sdk::{contractimpl, symbol_short, Env};
pub struct C;
#[contractimpl]
impl C {
    pub fn clear_counter(env: Env) {
        let key = symbol_short!("counter");
        env.storage().persistent().remove(&key);
    }
}
"#,
        )?;
        let hits = AdminKeyRemovalCheck.run(&file, "");
        assert!(hits.is_empty());
        Ok(())
    }

    #[test]
    fn ignores_temporary_remove_of_admin_key() -> Result<(), syn::Error> {
        let file = parse_file(
            r#"
use soroban_sdk::{contractimpl, symbol_short, Env};
pub struct C;
#[contractimpl]
impl C {
    pub fn clear_temp(env: Env) {
        let key = symbol_short!("admin");
        env.storage().temporary().remove(&key);
    }
}
"#,
        )?;
        // temporary() is not persistent() — should not flag
        let hits = AdminKeyRemovalCheck.run(&file, "");
        assert!(hits.is_empty());
        Ok(())
    }

// ---------------------------------------------------------------------------
// timestamp_as_nonce

    fn timestamp_as_nonce_run_on_src(src: &str) -> Result<Vec<Finding>, syn::Error> {
        let file = parse_file(src)?;
        Ok(TimestampAsNonceCheck.run(&file, src))
    }

    #[test]
    fn flags_timestamp_stored_directly_as_storage_key() -> Result<(), syn::Error> {
        let hits = timestamp_as_nonce_run_on_src(
            r#"
use soroban_sdk::{contractimpl, Env};

pub struct Contract;

#[contractimpl]
impl Contract {
    pub fn record(env: Env) {
        env.storage().persistent().set(&env.ledger().timestamp(), &true);
    }
}
"#,
        )?;
        assert_eq!(hits.len(), 1);
        assert_eq!(hits[0].function_name, "record");
        assert_eq!(hits[0].severity, Severity::High);
        assert_eq!(hits[0].check_name, soroban_checks::checks::timestamp_as_nonce::CHECK_NAME);
        Ok(())
    }

    #[test]
    fn flags_timestamp_assigned_to_nonce_binding() -> Result<(), syn::Error> {
        let hits = timestamp_as_nonce_run_on_src(
            r#"
use soroban_sdk::{contractimpl, Env};

pub struct Contract;

#[contractimpl]
impl Contract {
    pub fn record(env: Env) {
        let nonce = env.ledger().timestamp();
        env.storage().persistent().set(&nonce, &true);
    }
}
"#,
        )?;
        assert_eq!(hits.len(), 1);
        assert_eq!(hits[0].function_name, "record");
        Ok(())
    }

    #[test]
    fn flags_timestamp_assigned_to_id_binding() -> Result<(), syn::Error> {
        let hits = timestamp_as_nonce_run_on_src(
            r#"
use soroban_sdk::{contractimpl, Env};

pub struct Contract;

#[contractimpl]
impl Contract {
    pub fn record(env: Env) {
        let request_id = env.ledger().timestamp();
        let _ = request_id;
    }
}
"#,
        )?;
        assert_eq!(hits.len(), 1);
        assert_eq!(hits[0].function_name, "record");
        Ok(())
    }

    #[test]
    fn flags_timestamp_assigned_to_unique_id_binding() -> Result<(), syn::Error> {
        let hits = timestamp_as_nonce_run_on_src(
            r#"
use soroban_sdk::{contractimpl, Env};

pub struct Contract;

#[contractimpl]
impl Contract {
    pub fn record(env: Env) {
        let unique_id = env.ledger().timestamp();
        let _ = unique_id;
    }
}
"#,
        )?;
        assert_eq!(hits.len(), 1);
        Ok(())
    }

    #[test]
    fn ignores_timestamp_assigned_to_unrelated_binding() -> Result<(), syn::Error> {
        let hits = timestamp_as_nonce_run_on_src(
            r#"
use soroban_sdk::{contractimpl, Env};

pub struct Contract;

#[contractimpl]
impl Contract {
    pub fn record(env: Env) {
        let close_time = env.ledger().timestamp();
        let _ = close_time;
    }
}
"#,
        )?;
        assert!(hits.is_empty());
        Ok(())
    }

    #[test]
    fn ignores_timestamp_used_for_expiry_not_nonce() -> Result<(), syn::Error> {
        let hits = timestamp_as_nonce_run_on_src(
            r#"
use soroban_sdk::{contractimpl, Env};

pub struct Contract;

const MIN_DURATION: u64 = 3600;

#[contractimpl]
impl Contract {
    pub fn set_expiry(env: Env) {
        let expiry = env.ledger().timestamp() + MIN_DURATION;
        env.storage().instance().set(&"expiry", &expiry);
    }
}
"#,
        )?;
        assert!(hits.is_empty());
        Ok(())
    }

    #[test]
    fn ignores_counter_based_nonce() -> Result<(), syn::Error> {
        let hits = timestamp_as_nonce_run_on_src(
            r#"
use soroban_sdk::{contractimpl, symbol_short, Env};

pub struct Contract;

#[contractimpl]
impl Contract {
    pub fn record(env: Env) {
        let counter: u64 = env.storage().instance().get(&symbol_short!("CNT")).unwrap_or(0);
        let nonce = counter + 1;
        env.storage().persistent().set(&nonce, &true);
        env.storage().instance().set(&symbol_short!("CNT"), &nonce);
    }
}
"#,
        )?;
        assert!(hits.is_empty());
        Ok(())
    }

    #[test]
    fn timestamp_as_nonce_ignores_non_contractimpl_impl() -> Result<(), syn::Error> {
        let hits = timestamp_as_nonce_run_on_src(
            r#"
use soroban_sdk::Env;

pub struct Contract;

impl Contract {
    pub fn record(env: Env) {
        let nonce = env.ledger().timestamp();
        env.storage().persistent().set(&nonce, &true);
    }
}
"#,
        )?;
        assert!(hits.is_empty());
        Ok(())
    }

// ---------------------------------------------------------------------------
// while_no_bound

    #[test]
    fn flags_while_storage_condition_without_bound() -> Result<(), syn::Error> {
        let file = parse_file(
            r#"
use soroban_sdk::{contractimpl, Env};

pub struct C;

#[contractimpl]
impl C {
    pub fn drain(env: Env) {
        while env.storage().instance().get::<_, i128>(&COUNT).unwrap() > 0 {
            let _ = 1;
        }
    }
}
"#,
        )?;
        let hits = WhileNoBoundCheck.run(&file, "");
        assert_eq!(hits.len(), 1);
        assert_eq!(hits[0].check_name, soroban_checks::checks::while_no_bound::CHECK_NAME);
        assert_eq!(hits[0].severity, Severity::Medium);
        assert_eq!(hits[0].function_name, "drain");
        Ok(())
    }

    #[test]
    fn passes_while_with_counter_and_break() -> Result<(), syn::Error> {
        let file = parse_file(
            r#"
use soroban_sdk::{contractimpl, Env};

pub struct C;

#[contractimpl]
impl C {
    pub fn drain(env: Env) {
        let mut i = 0;
        while env.storage().instance().get::<_, i128>(&COUNT).unwrap() > 0 {
            i += 1;
            if i >= MAX {
                break;
            }
        }
    }
}
"#,
        )?;
        let hits = WhileNoBoundCheck.run(&file, "");
        assert!(hits.is_empty());
        Ok(())
    }

    #[test]
    fn flags_while_param_condition_without_bound() -> Result<(), syn::Error> {
        let file = parse_file(
            r#"
use soroban_sdk::{contractimpl, Env};

pub struct C;

#[contractimpl]
impl C {
    pub fn run(env: Env, n: u32) {
        let _ = env;
        while n > 0 {
            let _ = 1;
        }
    }
}
"#,
        )?;
        let hits = WhileNoBoundCheck.run(&file, "");
        assert_eq!(hits.len(), 1);
        assert_eq!(hits[0].function_name, "run");
        Ok(())
    }

    #[test]
    fn passes_while_local_literal_condition() -> Result<(), syn::Error> {
        let file = parse_file(
            r#"
use soroban_sdk::{contractimpl, Env};

pub struct C;

#[contractimpl]
impl C {
    pub fn run(env: Env) {
        let _ = env;
        let mut i = 0;
        while i < 10 {
            i += 1;
        }
    }
}
"#,
        )?;
        let hits = WhileNoBoundCheck.run(&file, "");
        assert!(hits.is_empty());
        Ok(())
    }

    #[test]
    fn while_no_bound_ignores_non_contractimpl() -> Result<(), syn::Error> {
        let file = parse_file(
            r#"
use soroban_sdk::Env;

pub struct C;

impl C {
    pub fn drain(env: Env) {
        while env.storage().instance().get::<_, i128>(&COUNT).unwrap() > 0 {
            let _ = 1;
        }
    }
}
"#,
        )?;
        let hits = WhileNoBoundCheck.run(&file, "");
        assert!(hits.is_empty());
        Ok(())
    }

// ---------------------------------------------------------------------------
// zero_amount

    #[test]
    fn detects_transfer_without_amount_check() {
        let code = r#"
#[contractimpl]
impl TokenContract {
    pub fn transfer(env: Env, from: Address, to: Address, amount: i32) {
        env.storage().instance().set(&key, &amount);
    }
}
        "#;
        let file = parse_file(code).unwrap();
        let check = ZeroAmountCheck;
        let findings = check.run(&file, code);
        assert_eq!(findings.len(), 1);
        assert_eq!(findings[0].check_name, soroban_checks::checks::zero_amount::CHECK_NAME);
        assert_eq!(findings[0].function_name, "transfer");
    }

    #[test]
    fn allows_transfer_with_amount_check() {
        let code = r#"
#[contractimpl]
impl TokenContract {
    pub fn transfer(env: Env, from: Address, to: Address, amount: i32) {
        if amount <= 0 {
            panic!("Amount must be positive");
        }
        env.storage().instance().set(&key, &amount);
    }
}
        "#;
        let file = parse_file(code).unwrap();
        let check = ZeroAmountCheck;
        let findings = check.run(&file, code);
        assert!(findings.is_empty());
    }

    #[test]
    fn detects_mint_without_validation() {
        let code = r#"
#[contractimpl]
impl TokenContract {
    pub fn mint(env: Env, to: Address, amount: i128) {
        emit_mint_event(env, amount);
    }
}
        "#;
        let file = parse_file(code).unwrap();
        let check = ZeroAmountCheck;
        let findings = check.run(&file, code);
        assert_eq!(findings.len(), 1);
        assert_eq!(findings[0].function_name, "mint");
    }

    #[test]
    fn allows_mint_with_amount_check() {
        let code = r#"
#[contractimpl]
impl TokenContract {
    pub fn mint(env: Env, to: Address, amount: i128) {
        if amount > 0 {
            emit_mint_event(env, amount);
        }
    }
}
        "#;
        let file = parse_file(code).unwrap();
        let check = ZeroAmountCheck;
        let findings = check.run(&file, code);
        assert!(findings.is_empty());
    }

    #[test]
    fn allows_function_without_amount_param() {
        let code = r#"
#[contractimpl]
impl MyContract {
    pub fn transfer(env: Env, from: Address, to: Address) {
        env.storage().instance().set(&key, &value);
    }
}
        "#;
        let file = parse_file(code).unwrap();
        let check = ZeroAmountCheck;
        let findings = check.run(&file, code);
        assert!(findings.is_empty());
    }

// ---------------------------------------------------------------------------
// storage_type_confusion

    #[test]
    fn flags_same_key_different_types() -> Result<(), syn::Error> {
        let src = r#"
use soroban_sdk::{contractimpl, Address, Env};
pub struct C;
#[contractimpl]
impl C {
    pub fn set_addr(env: Env, addr: Address) {
        env.storage().instance().set(&"owner", &addr);
    }
    pub fn set_count(env: Env) {
        env.storage().instance().set(&"owner", &42i128);
    }
}
"#;
        let file = parse_file(src)?;
        let hits = StorageTypeConfusionCheck.run(&file, "");
        assert_eq!(hits.len(), 1);
        assert_eq!(hits[0].severity, Severity::Medium);
        assert!(hits[0].description.contains("owner"));
        Ok(())
    }

    #[test]
    fn no_finding_when_same_key_same_type() -> Result<(), syn::Error> {
        let src = r#"
use soroban_sdk::{contractimpl, Address, Env};
pub struct C;
#[contractimpl]
impl C {
    pub fn set_a(env: Env, addr: Address) {
        env.storage().instance().set(&"owner", &addr);
    }
    pub fn set_b(env: Env, addr: Address) {
        env.storage().instance().set(&"owner", &addr);
    }
}
"#;
        let file = parse_file(src)?;
        let hits = StorageTypeConfusionCheck.run(&file, "");
        assert!(hits.is_empty(), "{hits:?}");
        Ok(())
    }

    #[test]
    fn no_finding_for_different_keys() -> Result<(), syn::Error> {
        let src = r#"
use soroban_sdk::{contractimpl, Address, Env};
pub struct C;
#[contractimpl]
impl C {
    pub fn set_a(env: Env, addr: Address) {
        env.storage().instance().set(&"admin", &addr);
    }
    pub fn set_b(env: Env) {
        env.storage().instance().set(&"count", &0u32);
    }
}
"#;
        let file = parse_file(src)?;
        let hits = StorageTypeConfusionCheck.run(&file, "");
        assert!(hits.is_empty());
        Ok(())
    }

    #[test]
    fn no_finding_for_single_writer() -> Result<(), syn::Error> {
        let src = r#"
use soroban_sdk::{contractimpl, Env};
pub struct C;
#[contractimpl]
impl C {
    pub fn set_a(env: Env) {
        env.storage().instance().set(&"count", &0u32);
    }
}
"#;
        let file = parse_file(src)?;
        let hits = StorageTypeConfusionCheck.run(&file, "");
        assert!(hits.is_empty());
        Ok(())
    }

// ---------------------------------------------------------------------------
// secp256k1_unchecked

    #[test]
    fn flags_recover_result_not_compared() -> Result<(), syn::Error> {
        let src = r#"
use soroban_sdk::{contractimpl, Bytes, Env};
pub struct C;
#[contractimpl]
impl C {
    pub fn verify(env: Env, msg: Bytes, sig: Bytes) {
        let _recovered = env.crypto().secp256k1_recover(&msg, &sig, 0);
        // BUG: recovered key is never compared to anything
    }
}
"#;
        let file = parse_file(src)?;
        let hits = Secp256k1UncheckedCheck.run(&file, "");
        assert_eq!(hits.len(), 1);
        assert_eq!(hits[0].severity, Severity::High);
        assert!(hits[0].description.contains("secp256k1_recover"));
        Ok(())
    }

    #[test]
    fn no_finding_when_result_eq_compared() -> Result<(), syn::Error> {
        let src = r#"
use soroban_sdk::{contractimpl, symbol_short, Bytes, BytesN, Env};
pub struct C;
#[contractimpl]
impl C {
    pub fn verify(env: Env, msg: Bytes, sig: Bytes) {
        let recovered: BytesN<65> = env.crypto().secp256k1_recover(&msg, &sig, 0);
        let trusted: BytesN<65> = env.storage().persistent()
            .get(&symbol_short!("pubkey")).unwrap();
        assert_eq!(recovered, trusted);
    }
}
"#;
        let file = parse_file(src)?;
        let hits = Secp256k1UncheckedCheck.run(&file, "");
        assert!(hits.is_empty(), "{hits:?}");
        Ok(())
    }

    #[test]
    fn no_finding_when_result_compared_with_eq_op() -> Result<(), syn::Error> {
        let src = r#"
use soroban_sdk::{contractimpl, symbol_short, Bytes, BytesN, Env};
pub struct C;
#[contractimpl]
impl C {
    pub fn verify(env: Env, msg: Bytes, sig: Bytes) {
        let recovered: BytesN<65> = env.crypto().secp256k1_recover(&msg, &sig, 0);
        let trusted: BytesN<65> = env.storage().persistent()
            .get(&symbol_short!("pubkey")).unwrap();
        if recovered == trusted {
            // authorized
        }
    }
}
"#;
        let file = parse_file(src)?;
        let hits = Secp256k1UncheckedCheck.run(&file, "");
        assert!(hits.is_empty(), "{hits:?}");
        Ok(())
    }

    #[test]
    fn flags_inline_recover_not_bound() -> Result<(), syn::Error> {
        let src = r#"
use soroban_sdk::{contractimpl, Bytes, Env};
pub struct C;
#[contractimpl]
impl C {
    pub fn verify(env: Env, msg: Bytes, sig: Bytes) {
        // result discarded entirely
        let _ = env.crypto().secp256k1_recover(&msg, &sig, 0);
    }
}
"#;
        let file = parse_file(src)?;
        let hits = Secp256k1UncheckedCheck.run(&file, "");
        assert_eq!(hits.len(), 1);
        Ok(())
    }

// ---------------------------------------------------------------------------
// unbounded_input_storage

    #[test]
    fn flags_unbounded_vec_param() -> Result<(), syn::Error> {
        let code = r#"
#[contractimpl]
impl MyContract {
    pub fn store_items(env: Env, items: Vec<u32>) {
        env.storage().persistent().set(&Symbol::new(&env, "items"), &items);
    }
}
        "#;
        let file = parse_file(code)?;
        let check = UnboundedInputStorageCheck;
        let findings = check.run(&file, "");
        assert_eq!(findings.len(), 1);
        assert_eq!(findings[0].severity, Severity::High);
        Ok(())
    }

    #[test]
    fn flags_unbounded_map_param() -> Result<(), syn::Error> {
        let code = r#"
#[contractimpl]
impl MyContract {
    pub fn store_map(env: Env, data: Map<u32, u32>) {
        env.storage().persistent().set(&Symbol::new(&env, "data"), &data);
    }
}
        "#;
        let file = parse_file(code)?;
        let check = UnboundedInputStorageCheck;
        let findings = check.run(&file, "");
        assert_eq!(findings.len(), 1);
        assert_eq!(findings[0].severity, Severity::High);
        Ok(())
    }

    #[test]
    fn flags_vec_param_clone() -> Result<(), syn::Error> {
        let code = r#"
#[contractimpl]
impl MyContract {
    pub fn store_vec_clone(env: Env, items: Vec<u32>) {
        let cloned = items.clone();
        env.storage().persistent().set(&Symbol::new(&env, "items"), &cloned);
    }
}
        "#;
        let file = parse_file(code)?;
        let check = UnboundedInputStorageCheck;
        let findings = check.run(&file, "");
        assert_eq!(findings.len(), 1);
        assert_eq!(findings[0].severity, Severity::High);
        Ok(())
    }

    #[test]
    fn passes_with_len_guard() -> Result<(), syn::Error> {
        let code = r#"
#[contractimpl]
impl MyContract {
    pub fn store_items(env: Env, items: Vec<u32>) {
        if items.len() < 100 {
            env.storage().persistent().set(&Symbol::new(&env, "items"), &items);
        }
    }
}
        "#;
        let file = parse_file(code)?;
        let check = UnboundedInputStorageCheck;
        let findings = check.run(&file, "");
        assert!(findings.is_empty());
        Ok(())
    }

    #[test]
    fn passes_when_param_is_not_vec_map() -> Result<(), syn::Error> {
        let code = r#"
#[contractimpl]
impl MyContract {
    pub fn store_u32(env: Env, value: u32) {
        env.storage().persistent().set(&Symbol::new(&env, "value"), &value);
    }
}
        "#;
        let file = parse_file(code)?;
        let check = UnboundedInputStorageCheck;
        let findings = check.run(&file, "");
        assert!(findings.is_empty());
        Ok(())
    }

    #[test]
    fn passes_when_storage_set_uses_local_vec() -> Result<(), syn::Error> {
        let code = r#"
#[contractimpl]
impl MyContract {
    pub fn store_local(env: Env) {
        let items = Vec::new(&env);
        env.storage().persistent().set(&Symbol::new(&env, "items"), &items);
    }
}
        "#;
        let file = parse_file(code)?;
        let check = UnboundedInputStorageCheck;
        let findings = check.run(&file, "");
        assert!(findings.is_empty());
        Ok(())
    }

    #[test]
    fn flags_temporary_storage() -> Result<(), syn::Error> {
        let code = r#"
#[contractimpl]
impl MyContract {
    pub fn store_temp(env: Env, items: Vec<u32>) {
        env.storage().temporary().set(&Symbol::new(&env, "items"), &items);
    }
}
        "#;
        let file = parse_file(code)?;
        let check = UnboundedInputStorageCheck;
        let findings = check.run(&file, "");
        assert_eq!(findings.len(), 1);
        Ok(())
    }

    #[test]
    fn flags_instance_storage() -> Result<(), syn::Error> {
        let code = r#"
#[contractimpl]
impl MyContract {
    pub fn store_instance(env: Env, items: Vec<u32>) {
        env.storage().instance().set(&Symbol::new(&env, "items"), &items);
    }
}
        "#;
        let file = parse_file(code)?;
        let check = UnboundedInputStorageCheck;
        let findings = check.run(&file, "");
        assert_eq!(findings.len(), 1);
        Ok(())
    }

    #[test]
    fn len_call_used_in_comparison_detected() -> Result<(), syn::Error> {
        let code = r#"
#[contractimpl]
impl MyContract {
    pub fn store_with_guard(env: Env, items: Vec<u32>) {
        if items.len() >= 10 {
            // guard present, should not flag
        }
        env.storage().persistent().set(&Symbol::new(&env, "items"), &items);
    }
}
        "#;
        let file = parse_file(code)?;
        let check = UnboundedInputStorageCheck;
        let findings = check.run(&file, "");
        // Since there is a len comparison, we consider it guarded (len_checked).
        // This test expects no findings.
        assert!(findings.is_empty());
        Ok(())
    }

// ---------------------------------------------------------------------------
// contracttype

    #[test]
    fn detects_missing_contracttype_on_struct() {
        let code = r#"
struct MyData {
    value: i32,
}

#[contractimpl]
impl MyContract {
    pub fn store(env: Env, data: MyData) {
        let d = MyData { value: 42 };
        env.storage().instance().set(&key, &d);
    }
}
        "#;
        let file = parse_file(code).unwrap();
        let check = MissingContracttypeCheck;
        let findings = check.run(&file, code);
        assert!(!findings.is_empty());
        assert!(findings
            .iter()
            .any(|f| f.function_name.is_empty() && f.description.contains("MyData")));
    }

    #[test]
    fn allows_struct_with_contracttype() {
        let code = r#"
#[contracttype]
struct MyData {
    value: i32,
}

#[contractimpl]
impl MyContract {
    pub fn store(env: Env, data: MyData) {
        let d = MyData { value: 42 };
        env.storage().instance().set(&key, &d);
    }
}
        "#;
        let file = parse_file(code).unwrap();
        let check = MissingContracttypeCheck;
        let findings = check.run(&file, code);
        assert!(findings.is_empty());
    }

    #[test]
    fn allows_struct_with_derive_contracttype() {
        let code = r#"
#[derive(Clone, contracttype)]
struct MyData {
    value: i32,
}

#[contractimpl]
impl MyContract {
    pub fn store(env: Env, data: MyData) {
        let d = MyData { value: 42 };
        env.storage().instance().set(&key, &d);
    }
}
        "#;
        let file = parse_file(code).unwrap();
        let check = MissingContracttypeCheck;
        let findings = check.run(&file, code);
        assert!(findings.is_empty());
    }

// ---------------------------------------------------------------------------
// ed25519_key_in_temp

    fn ed25519_key_in_temp_run_on_src(src: &str) -> Result<Vec<Finding>, syn::Error> {
        let file = parse_file(src)?;
        Ok(Ed25519KeyInTempCheck.run(&file, src))
    }

    #[test]
    fn flags_ed25519_verify_with_temp_pubkey() -> Result<(), syn::Error> {
        let hits = ed25519_key_in_temp_run_on_src(
            r#"
use soroban_sdk::{contractimpl, Env};

pub struct C;

#[contractimpl]
impl C {
    pub fn verify(env: Env, msg: Bytes, sig: Bytes) {
        let pubkey = env.storage().temporary().get(&"pubkey");
        env.crypto().ed25519_verify(&pubkey, &msg, &sig);
    }
}
"#,
        )?;
        assert_eq!(hits.len(), 1);
        assert_eq!(hits[0].severity, Severity::High);
        Ok(())
    }

    #[test]
    fn does_not_flag_ed25519_verify_with_persistent_pubkey() -> Result<(), syn::Error> {
        let hits = ed25519_key_in_temp_run_on_src(
            r#"
use soroban_sdk::{contractimpl, Env};

pub struct C;

#[contractimpl]
impl C {
    pub fn verify(env: Env, msg: Bytes, sig: Bytes) {
        let pubkey = env.storage().persistent().get(&"pubkey");
        env.crypto().ed25519_verify(&pubkey, &msg, &sig);
    }
}
"#,
        )?;
        assert!(hits.is_empty());
        Ok(())
    }

// ---------------------------------------------------------------------------
// unauth_address_in_struct

    #[test]
    fn flags_struct_with_unauthed_address() -> Result<(), syn::Error> {
        let src = r#"
use soroban_sdk::{contractimpl, symbol_short, Address, Env};
pub struct C;
struct Record { owner: Address, amount: i128 }
#[contractimpl]
impl C {
    pub fn register(env: Env, owner: Address, amount: i128) {
        // BUG: owner not authenticated
        env.storage().persistent().set(
            &symbol_short!("rec"),
            &Record { owner, amount },
        );
    }
}
"#;
        let file = parse_file(src)?;
        let hits = UnauthAddressInStructCheck.run(&file, "");
        assert_eq!(hits.len(), 1);
        assert_eq!(hits[0].severity, Severity::High);
        assert!(hits[0].description.contains("require_auth"));
        Ok(())
    }

    #[test]
    fn no_finding_when_require_auth_present() -> Result<(), syn::Error> {
        let src = r#"
use soroban_sdk::{contractimpl, symbol_short, Address, Env};
pub struct C;
struct Record { owner: Address, amount: i128 }
#[contractimpl]
impl C {
    pub fn register(env: Env, owner: Address, amount: i128) {
        owner.require_auth();
        env.storage().persistent().set(
            &symbol_short!("rec"),
            &Record { owner, amount },
        );
    }
}
"#;
        let file = parse_file(src)?;
        let hits = UnauthAddressInStructCheck.run(&file, "");
        assert!(hits.is_empty(), "{hits:?}");
        Ok(())
    }

    #[test]
    fn no_finding_when_no_address_param() -> Result<(), syn::Error> {
        let src = r#"
use soroban_sdk::{contractimpl, symbol_short, Env};
pub struct C;
struct Record { amount: i128 }
#[contractimpl]
impl C {
    pub fn register(env: Env, amount: i128) {
        env.storage().persistent().set(&symbol_short!("rec"), &Record { amount });
    }
}
"#;
        let file = parse_file(src)?;
        let hits = UnauthAddressInStructCheck.run(&file, "");
        assert!(hits.is_empty());
        Ok(())
    }

// ---------------------------------------------------------------------------
// contracterror_attr

    fn contracterror_attr_run_on_src(src: &str) -> Result<Vec<Finding>, syn::Error> {
        let file = parse_file(src)?;
        Ok(ContracterrorAttrCheck.run(&file, src))
    }

    #[test]
    fn flags_missing_contracterror_attr() -> Result<(), syn::Error> {
        let hits = contracterror_attr_run_on_src(
            r#"
use soroban_sdk::{contract, contractimpl, panic_with_error, Env};

#[contract]
pub struct Contract;

#[derive(Debug)]
pub enum MyError {
    InsufficientBalance,
}

#[contractimpl]
impl Contract {
    pub fn withdraw(env: Env, amount: i128) {
        panic_with_error!(&env, MyError::InsufficientBalance);
    }
}
"#,
        )?;
        assert_eq!(hits.len(), 1);
        assert_eq!(hits[0].severity, Severity::Low);
        assert_eq!(hits[0].check_name, soroban_checks::checks::contracterror_attr::CHECK_NAME);
        Ok(())
    }

    #[test]
    fn passes_with_contracterror_attr() -> Result<(), syn::Error> {
        let hits = contracterror_attr_run_on_src(
            r#"
use soroban_sdk::{contract, contractimpl, panic_with_error, contracterror, Env};

#[contract]
pub struct Contract;

#[contracterror]
#[derive(Debug)]
pub enum MyError {
    InsufficientBalance,
}

#[contractimpl]
impl Contract {
    pub fn withdraw(env: Env, amount: i128) {
        panic_with_error!(&env, MyError::InsufficientBalance);
    }
}
"#,
        )?;
        assert!(hits.is_empty());
        Ok(())
    }

    #[test]
    fn passes_with_repr_u32_attr() -> Result<(), syn::Error> {
        let hits = contracterror_attr_run_on_src(
            r#"
use soroban_sdk::{contract, contractimpl, panic_with_error, Env};

#[contract]
pub struct Contract;

#[repr(u32)]
#[derive(Debug)]
pub enum MyError {
    InsufficientBalance,
}

#[contractimpl]
impl Contract {
    pub fn withdraw(env: Env, amount: i128) {
        panic_with_error!(&env, MyError::InsufficientBalance);
    }
}
"#,
        )?;
        assert!(hits.is_empty());
        Ok(())
    }

// ---------------------------------------------------------------------------
// auth_loop_dos

    #[test]
    fn flags_require_auth_in_loop_over_storage_vec() -> Result<(), syn::Error> {
        let src = r#"
use soroban_sdk::{contractimpl, symbol_short, Address, Env, Vec};
pub struct C;
#[contractimpl]
impl C {
    pub fn multi_auth(env: Env) {
        let signers: Vec<Address> = env.storage().persistent()
            .get(&symbol_short!("signers")).unwrap();
        for signer in signers {
            signer.require_auth();
        }
    }
}
"#;
        let file = parse_file(src)?;
        let hits = AuthLoopDosCheck.run(&file, "");
        assert_eq!(hits.len(), 1);
        assert_eq!(hits[0].severity, Severity::Medium);
        assert!(hits[0].description.contains("DoS"));
        Ok(())
    }

    #[test]
    fn no_finding_for_loop_over_literal_range() -> Result<(), syn::Error> {
        let src = r#"
use soroban_sdk::{contractimpl, Address, Env};
pub struct C;
#[contractimpl]
impl C {
    pub fn process(env: Env, signer: Address) {
        for _ in 0..3u32 {
            signer.require_auth();
        }
    }
}
"#;
        let file = parse_file(src)?;
        let hits = AuthLoopDosCheck.run(&file, "");
        assert!(hits.is_empty(), "{hits:?}");
        Ok(())
    }

    #[test]
    fn no_finding_for_storage_loop_without_auth() -> Result<(), syn::Error> {
        let src = r#"
use soroban_sdk::{contractimpl, symbol_short, Address, Env, Vec};
pub struct C;
#[contractimpl]
impl C {
    pub fn tally(env: Env) -> u32 {
        let list: Vec<Address> = env.storage().persistent()
            .get(&symbol_short!("list")).unwrap();
        let mut count = 0u32;
        for _ in list {
            count += 1;
        }
        count
    }
}
"#;
        let file = parse_file(src)?;
        let hits = AuthLoopDosCheck.run(&file, "");
        assert!(hits.is_empty());
        Ok(())
    }

    #[test]
    fn flags_require_auth_for_args_in_storage_loop() -> Result<(), syn::Error> {
        let src = r#"
use soroban_sdk::{contractimpl, symbol_short, Address, Env, Vec};
pub struct C;
#[contractimpl]
impl C {
    pub fn approve_all(env: Env) {
        let approvers: Vec<Address> = env.storage().instance()
            .get(&symbol_short!("approvers")).unwrap_or_default();
        for approver in approvers {
            approver.require_auth_for_args(soroban_sdk::vec![&env]);
        }
    }
}
"#;
        let file = parse_file(src)?;
        let hits = AuthLoopDosCheck.run(&file, "");
        assert_eq!(hits.len(), 1);
        Ok(())
    }

// ---------------------------------------------------------------------------
// balance_overflow

    const BALANCE_OVERFLOW_VULNERABLE: &str = r#"
use soroban_sdk::{contract, contractimpl, symbol_short, Env, Symbol};

#[contract]
pub struct C;

const BAL: Symbol = symbol_short!("bal");

#[contractimpl]
impl C {
    pub fn deposit(env: Env, amount: i128) {
        let bal: i128 = env.storage().persistent().get(&BAL).unwrap_or(0);
        let new_bal = bal + amount;
        env.storage().persistent().set(&BAL, &new_bal);
    }
}
"#;

    const BALANCE_OVERFLOW_SAFE: &str = r#"
use soroban_sdk::{contract, contractimpl, symbol_short, Env, Symbol};

#[contract]
pub struct C;

const BAL: Symbol = symbol_short!("bal");

#[contractimpl]
impl C {
    pub fn deposit(env: Env, amount: i128) {
        let bal: i128 = env.storage().persistent().get(&BAL).unwrap_or(0);
        let new_bal = bal.checked_add(amount).expect("overflow");
        env.storage().persistent().set(&BAL, &new_bal);
    }
}
"#;

    #[test]
    fn flags_unchecked_add_on_persistent_balance() -> Result<(), syn::Error> {
        let file = parse_file(BALANCE_OVERFLOW_VULNERABLE)?;
        let hits = BalanceOverflowCheck.run(&file, "");
        assert!(!hits.is_empty(), "expected at least one finding");
        assert_eq!(hits[0].severity, Severity::High);
        assert_eq!(hits[0].check_name, soroban_checks::checks::balance_overflow::CHECK_NAME);
        Ok(())
    }

    #[test]
    fn passes_checked_add_on_persistent_balance() -> Result<(), syn::Error> {
        let file = parse_file(BALANCE_OVERFLOW_SAFE)?;
        let hits = BalanceOverflowCheck.run(&file, "");
        assert!(hits.is_empty(), "expected no findings, got: {hits:?}");
        Ok(())
    }

    #[test]
    fn ignores_add_without_storage_pattern() -> Result<(), syn::Error> {
        let file = parse_file(
            r#"
use soroban_sdk::{contract, contractimpl, Env};
#[contract] pub struct C;
#[contractimpl]
impl C {
    pub fn add(_env: Env, a: i128, b: i128) -> i128 { a + b }
}
"#,
        )?;
        // No persistent get+set pair → check should not fire
        let hits = BalanceOverflowCheck.run(&file, "");
        assert!(hits.is_empty(), "got: {hits:?}");
        Ok(())
    }

    #[test]
    fn flags_add_assign_variant() -> Result<(), syn::Error> {
        let file = parse_file(
            r#"
use soroban_sdk::{contract, contractimpl, symbol_short, Env, Symbol};
#[contract] pub struct C;
const BAL: Symbol = symbol_short!("b");
#[contractimpl]
impl C {
    pub fn deposit(env: Env, amount: i128) {
        let mut bal: i128 = env.storage().persistent().get(&BAL).unwrap_or(0);
        bal += amount;
        env.storage().persistent().set(&BAL, &bal);
    }
}
"#,
        )?;
        let hits = BalanceOverflowCheck.run(&file, "");
        assert!(!hits.is_empty(), "expected finding for +=");
        assert_eq!(hits[0].severity, Severity::High);
        Ok(())
    }

// ---------------------------------------------------------------------------
// token_burn_auth

    fn token_burn_auth_run_on_src(src: &str) -> Result<Vec<Finding>, syn::Error> {
        let file = parse_file(src)?;
        Ok(TokenBurnAuthCheck.run(&file, src))
    }

    #[test]
    fn flags_burn_without_auth() -> Result<(), syn::Error> {
        let hits = token_burn_auth_run_on_src(
            r#"
use soroban_sdk::{contract, contractimpl, Address, Env};

#[contract]
pub struct Contract;

#[contractimpl]
impl Contract {
    pub fn burn_tokens(env: Env, token: Address, from: Address, amount: i128) {
        let token_client = soroban_sdk::token::Client::new(&env, &token);
        // ❌ Burn without require_auth on from
        token_client.burn(&from, &amount);
    }
}
"#,
        )?;
        assert_eq!(hits.len(), 1);
        assert_eq!(hits[0].function_name, "burn_tokens");
        assert_eq!(hits[0].severity, Severity::High);
        assert_eq!(hits[0].check_name, soroban_checks::checks::token_burn_auth::CHECK_NAME);
        Ok(())
    }

    #[test]
    fn passes_when_auth_before_burn() -> Result<(), syn::Error> {
        let hits = token_burn_auth_run_on_src(
            r#"
use soroban_sdk::{contract, contractimpl, Address, Env};

#[contract]
pub struct Contract;

#[contractimpl]
impl Contract {
    pub fn burn_tokens(env: Env, token: Address, from: Address, amount: i128) {
        // ✅ Auth first
        from.require_auth();
        let token_client = soroban_sdk::token::Client::new(&env, &token);
        token_client.burn(&from, &amount);
    }
}
"#,
        )?;
        assert!(hits.is_empty());
        Ok(())
    }

    #[test]
    fn passes_with_require_auth_for_args() -> Result<(), syn::Error> {
        let hits = token_burn_auth_run_on_src(
            r#"
use soroban_sdk::{contract, contractimpl, Address, Env};

#[contract]
pub struct Contract;

#[contractimpl]
impl Contract {
    pub fn burn_tokens(env: Env, token: Address, from: Address, amount: i128) {
        // ✅ require_auth_for_args authorizes all Address params
        env.require_auth_for_args((token, from, amount));
        let token_client = soroban_sdk::token::Client::new(&env, &token);
        token_client.burn(&from, &amount);
    }
}
"#,
        )?;
        assert!(hits.is_empty());
        Ok(())
    }

// ---------------------------------------------------------------------------
// uncapped_slippage

    #[test]
    fn flags_swap_without_cap() -> Result<(), syn::Error> {
        let file = parse_file(
            r#"
pub struct C;
#[contractimpl]
impl C {
    pub fn swap(env: soroban_sdk::Env, amount: i128, slippage: u32) {
        let out = amount - (amount * slippage as i128 / 10000);
        env.storage().instance().set(&1u32, &out);
    }
}
"#,
        )?;
        let hits = UncappedSlippageCheck.run(&file, "");
        assert_eq!(hits.len(), 1);
        assert_eq!(hits[0].severity, Severity::High);
        Ok(())
    }

    #[test]
    fn passes_swap_with_cap() -> Result<(), syn::Error> {
        let src = r#"
pub struct C;
#[contractimpl]
impl C {
    pub fn swap(env: soroban_sdk::Env, amount: i128, slippage: u32) {
        assert!(slippage <= 1000);
        let out = amount - (amount * slippage as i128 / 10000);
        env.storage().instance().set(&1u32, &out);
    }
}
"#;
        let file = parse_file(src)?;
        let hits = UncappedSlippageCheck.run(&file, src);
        assert!(hits.is_empty());
        Ok(())
    }

    #[test]
    fn ignores_unrelated_fn_name() -> Result<(), syn::Error> {
        let file = parse_file(
            r#"
pub struct C;
#[contractimpl]
impl C {
    pub fn deposit(env: soroban_sdk::Env, amount: i128, slippage: u32) {
        let _ = (env, amount, slippage);
    }
}
"#,
        )?;
        let hits = UncappedSlippageCheck.run(&file, "");
        assert!(hits.is_empty());
        Ok(())
    }

// ---------------------------------------------------------------------------
// instance_vec_growth

    #[test]
    fn flags_unbounded_push_to_instance_vec() -> Result<(), syn::Error> {
        let src = r#"
use soroban_sdk::{contractimpl, symbol_short, vec, Env, Vec};
pub struct C;
const PARTICIPANTS: soroban_sdk::Symbol = symbol_short!("parts");
#[contractimpl]
impl C {
    pub fn register(env: Env, addr: soroban_sdk::Address) {
        let mut list: Vec<soroban_sdk::Address> = env
            .storage()
            .instance()
            .get(&PARTICIPANTS)
            .unwrap_or(vec![&env]);
        list.push_back(addr);
        env.storage().instance().set(&PARTICIPANTS, &list);
    }
}
"#;
        let file = parse_file(src)?;
        let hits = InstanceVecGrowthCheck.run(&file, "");
        assert_eq!(hits.len(), 1);
        assert_eq!(hits[0].severity, Severity::High);
        assert!(hits[0].description.contains("unbounded"));
        Ok(())
    }

    #[test]
    fn no_finding_when_len_checked() -> Result<(), syn::Error> {
        let src = r#"
use soroban_sdk::{contractimpl, symbol_short, vec, Env, Vec};
pub struct C;
const PARTICIPANTS: soroban_sdk::Symbol = symbol_short!("parts");
const MAX: u32 = 100;
#[contractimpl]
impl C {
    pub fn register(env: Env, addr: soroban_sdk::Address) {
        let mut list: Vec<soroban_sdk::Address> = env
            .storage()
            .instance()
            .get(&PARTICIPANTS)
            .unwrap_or(vec![&env]);
        assert!(list.len() < MAX);
        list.push_back(addr);
        env.storage().instance().set(&PARTICIPANTS, &list);
    }
}
"#;
        let file = parse_file(src)?;
        let hits = InstanceVecGrowthCheck.run(&file, "");
        assert!(hits.is_empty(), "{hits:?}");
        Ok(())
    }

    #[test]
    fn no_finding_for_persistent_vec() -> Result<(), syn::Error> {
        // Uses persistent(), not instance() — out of scope for this check.
        let src = r#"
use soroban_sdk::{contractimpl, symbol_short, vec, Env, Vec};
pub struct C;
const KEY: soroban_sdk::Symbol = symbol_short!("k");
#[contractimpl]
impl C {
    pub fn append(env: Env, val: u32) {
        let mut v: Vec<u32> = env
            .storage()
            .persistent()
            .get(&KEY)
            .unwrap_or(vec![&env]);
        v.push_back(val);
        env.storage().persistent().set(&KEY, &v);
    }
}
"#;
        let file = parse_file(src)?;
        let hits = InstanceVecGrowthCheck.run(&file, "");
        assert!(hits.is_empty());
        Ok(())
    }

    #[test]
    fn no_finding_when_no_push() -> Result<(), syn::Error> {
        let src = r#"
use soroban_sdk::{contractimpl, symbol_short, Env, Vec};
pub struct C;
const KEY: soroban_sdk::Symbol = symbol_short!("k");
#[contractimpl]
impl C {
    pub fn reset(env: Env) {
        let v: Vec<u32> = env.storage().instance().get(&KEY).unwrap();
        env.storage().instance().set(&KEY, &v);
    }
}
"#;
        let file = parse_file(src)?;
        let hits = InstanceVecGrowthCheck.run(&file, "");
        assert!(hits.is_empty());
        Ok(())
    }

// ---------------------------------------------------------------------------
// tier_key_collision

    #[test]
    fn flags_same_key_in_temp_and_persistent() -> Result<(), syn::Error> {
        let file = parse_file(
            r#"
use soroban_sdk::{contractimpl, Env};
pub struct C;
#[contractimpl]
impl C {
    pub fn store_temp(env: Env) {
        env.storage().temporary().set("session", &1u32);
    }
    pub fn store_persistent(env: Env) {
        env.storage().persistent().set("session", &1u32);
    }
}
"#,
        )?;
        let hits = TierKeyCollisionCheck.run(&file, "");
        assert_eq!(hits.len(), 2, "expected 2 findings, got {:?}", hits);
        assert!(hits.iter().all(|f| f.severity == Severity::Medium));
        Ok(())
    }

    #[test]
    fn flags_same_key_in_temp_and_instance() -> Result<(), syn::Error> {
        let file = parse_file(
            r#"
use soroban_sdk::{contractimpl, Env};
pub struct C;
#[contractimpl]
impl C {
    pub fn write(env: Env) {
        env.storage().temporary().set("nonce", &42u32);
        env.storage().instance().set("nonce", &42u32);
    }
}
"#,
        )?;
        let hits = TierKeyCollisionCheck.run(&file, "");
        assert_eq!(hits.len(), 2);
        Ok(())
    }

    #[test]
    fn passes_same_key_same_tier() -> Result<(), syn::Error> {
        let file = parse_file(
            r#"
use soroban_sdk::{contractimpl, Env};
pub struct C;
#[contractimpl]
impl C {
    pub fn write(env: Env) {
        env.storage().persistent().set("balance", &100u32);
    }
    pub fn read(env: Env) -> u32 {
        env.storage().persistent().get("balance").unwrap_or(0)
    }
}
"#,
        )?;
        let hits = TierKeyCollisionCheck.run(&file, "");
        assert!(hits.is_empty(), "expected no findings, got {:?}", hits);
        Ok(())
    }

    #[test]
    fn passes_different_keys_different_tiers() -> Result<(), syn::Error> {
        let file = parse_file(
            r#"
use soroban_sdk::{contractimpl, Env};
pub struct C;
#[contractimpl]
impl C {
    pub fn write(env: Env) {
        env.storage().temporary().set("session_key", &1u32);
        env.storage().persistent().set("balance_key", &100u32);
    }
}
"#,
        )?;
        let hits = TierKeyCollisionCheck.run(&file, "");
        assert!(hits.is_empty());
        Ok(())
    }

    #[test]
    fn passes_temp_only() -> Result<(), syn::Error> {
        let file = parse_file(
            r#"
use soroban_sdk::{contractimpl, Env};
pub struct C;
#[contractimpl]
impl C {
    pub fn write(env: Env) {
        env.storage().temporary().set("token", &1u32);
    }
    pub fn read(env: Env) -> u32 {
        env.storage().temporary().get("token").unwrap_or(0)
    }
}
"#,
        )?;
        let hits = TierKeyCollisionCheck.run(&file, "");
        assert!(hits.is_empty());
        Ok(())
    }

    #[test]
    fn flags_cross_function_collision() -> Result<(), syn::Error> {
        let file = parse_file(
            r#"
use soroban_sdk::{contractimpl, Env};
pub struct C;
#[contractimpl]
impl C {
    pub fn init(env: Env) {
        env.storage().persistent().set("config", &true);
    }
    pub fn reset(env: Env) {
        // Bug: uses temporary for the same "config" key
        env.storage().temporary().set("config", &false);
    }
}
"#,
        )?;
        let hits = TierKeyCollisionCheck.run(&file, "");
        assert_eq!(hits.len(), 2);
        // Each finding should reference the correct function
        let fn_names: Vec<&str> = hits.iter().map(|f| f.function_name.as_str()).collect();
        assert!(fn_names.contains(&"init"));
        assert!(fn_names.contains(&"reset"));
        Ok(())
    }

// ---------------------------------------------------------------------------
// partial_write_on_error

    fn partial_write_on_error_run_on_src(src: &str) -> Result<Vec<Finding>, syn::Error> {
        let file = parse_file(src)?;
        Ok(PartialWriteOnErrorCheck.run(&file, src))
    }

    #[test]
    fn flags_persistent_write_before_try() -> Result<(), syn::Error> {
        let hits = partial_write_on_error_run_on_src(
            r#"
use soroban_sdk::{contract, contractimpl, Env, Address};

#[contract]
pub struct Contract;

#[contractimpl]
impl Contract {
    pub fn transfer(env: Env, from: Address, to: Address, amount: i128) -> Result<(), ()> {
        // Write before fallible operation
        env.storage().persistent().set(&from, &0i128);
        // Fallible operation
        from.require_auth()?;
        Ok(())
    }
}
"#,
        )?;
        assert_eq!(hits.len(), 1);
        assert_eq!(hits[0].function_name, "transfer");
        assert_eq!(hits[0].severity, Severity::Medium);
        assert_eq!(hits[0].check_name, soroban_checks::checks::partial_write_on_error::CHECK_NAME);
        Ok(())
    }

    #[test]
    fn flags_persistent_write_before_return_err() -> Result<(), syn::Error> {
        let hits = partial_write_on_error_run_on_src(
            r#"
use soroban_sdk::{contract, contractimpl, Env, Address};

#[contract]
pub struct Contract;

#[contractimpl]
impl Contract {
    pub fn transfer(env: Env, from: Address, to: Address, amount: i128) -> Result<(), ()> {
        // Write before return Err
        env.storage().persistent().set(&from, &0i128);
        return Err(());
    }
}
"#,
        )?;
        assert_eq!(hits.len(), 1);
        assert_eq!(hits[0].severity, Severity::Medium);
        Ok(())
    }

    #[test]
    fn passes_when_write_after_error() -> Result<(), syn::Error> {
        let hits = partial_write_on_error_run_on_src(
            r#"
use soroban_sdk::{contract, contractimpl, Env, Address};

#[contract]
pub struct Contract;

#[contractimpl]
impl Contract {
    pub fn transfer(env: Env, from: Address, to: Address, amount: i128) -> Result<(), ()> {
        // Fallible operation first
        from.require_auth()?;
        // Write after
        env.storage().persistent().set(&from, &0i128);
        Ok(())
    }
}
"#,
        )?;
        assert!(hits.is_empty());
        Ok(())
    }

    #[test]
    fn passes_when_no_persistent_write() -> Result<(), syn::Error> {
        let hits = partial_write_on_error_run_on_src(
            r#"
use soroban_sdk::{contract, contractimpl, Env, Address};

#[contract]
pub struct Contract;

#[contractimpl]
impl Contract {
    pub fn transfer(env: Env, from: Address, to: Address, amount: i128) -> Result<(), ()> {
        // Only temporary storage
        env.storage().temporary().set(&from, &0i128);
        from.require_auth()?;
        Ok(())
    }
}
"#,
        )?;
        assert!(hits.is_empty());
        Ok(())
    }

// ---------------------------------------------------------------------------
// storage_has_get_race

    fn storage_has_get_race_run(src: &str) -> Vec<Finding> {
        let file = parse_file(src).unwrap();
        StorageHasGetRaceCheck.run(&file, src)
    }

    #[test]
    fn flags_has_then_host_call_then_get() {
        let hits = storage_has_get_race_run(r#"
#[contractimpl]
impl C {
    pub fn read(env: Env, key: u32) {
        if env.storage().persistent().has(&key) {
            env.current_contract_address(); // intervening host call
            let _v = env.storage().persistent().get(&key);
        }
    }
}
"#);
        assert_eq!(hits.len(), 1);
        assert_eq!(hits[0].severity, Severity::Medium);
        assert_eq!(hits[0].check_name, soroban_checks::checks::storage_has_get_race::CHECK_NAME);
    }

    #[test]
    fn no_flag_when_get_immediately_follows_has() {
        let hits = storage_has_get_race_run(r#"
#[contractimpl]
impl C {
    pub fn read(env: Env, key: u32) {
        if env.storage().persistent().has(&key) {
            let _v = env.storage().persistent().get(&key);
        }
    }
}
"#);
        // has and get are adjacent — no intervening calls counted
        assert!(hits.is_empty(), "{hits:?}");
    }

    #[test]
    fn no_flag_without_has() {
        let hits = storage_has_get_race_run(r#"
#[contractimpl]
impl C {
    pub fn read(env: Env, key: u32) {
        let _v = env.storage().persistent().get(&key);
    }
}
"#);
        assert!(hits.is_empty());
    }

    #[test]
    fn no_flag_different_tiers() {
        let hits = storage_has_get_race_run(r#"
#[contractimpl]
impl C {
    pub fn read(env: Env, key: u32) {
        if env.storage().temporary().has(&key) {
            env.current_contract_address();
            let _v = env.storage().persistent().get(&key);
        }
    }
}
"#);
        // has on temporary, get on persistent — different tiers, no race
        assert!(hits.is_empty());
    }

// ---------------------------------------------------------------------------
// nonce_increment_order

    #[test]
    fn flags_external_call_before_nonce_set() -> Result<(), syn::Error> {
        let file = parse_file(
            r#"
pub struct C;
#[contractimpl]
impl C {
    pub fn execute(env: soroban_sdk::Env, nonce: u64) {
        let stored: u64 = env.storage().persistent().get(&"nonce").unwrap_or(0);
        // external call BEFORE nonce update — vulnerable
        token.transfer(&env, &from, &to, &amount);
        env.storage().persistent().set(&"nonce", &(stored + 1));
    }
}
"#,
        )?;
        let hits = NonceIncrementOrderCheck.run(&file, "");
        assert_eq!(hits.len(), 1);
        assert_eq!(hits[0].severity, Severity::High);
        Ok(())
    }

    #[test]
    fn passes_nonce_set_before_external_call() -> Result<(), syn::Error> {
        let file = parse_file(
            r#"
pub struct C;
#[contractimpl]
impl C {
    pub fn execute(env: soroban_sdk::Env, nonce: u64) {
        let stored: u64 = env.storage().persistent().get(&"nonce").unwrap_or(0);
        env.storage().persistent().set(&"nonce", &(stored + 1));
        token.transfer(&env, &from, &to, &amount);
    }
}
"#,
        )?;
        let hits = NonceIncrementOrderCheck.run(&file, "");
        assert!(hits.is_empty());
        Ok(())
    }

    #[test]
    fn ignores_no_external_call() -> Result<(), syn::Error> {
        let file = parse_file(
            r#"
pub struct C;
#[contractimpl]
impl C {
    pub fn bump_nonce(env: soroban_sdk::Env) {
        let n: u64 = env.storage().persistent().get(&"nonce").unwrap_or(0);
        env.storage().persistent().set(&"nonce", &(n + 1));
    }
}
"#,
        )?;
        let hits = NonceIncrementOrderCheck.run(&file, "");
        assert!(hits.is_empty());
        Ok(())
    }

// ---------------------------------------------------------------------------
// self_transfer

    #[test]
    fn flags_transfer_without_ne_check() -> Result<(), syn::Error> {
        let file = parse_file(
            r#"
use soroban_sdk::{contractimpl, Address, Env};
pub struct C;
#[contractimpl]
impl C {
    pub fn transfer(env: Env, from: Address, to: Address, amount: i128) {
        let _ = (env, from, to, amount);
    }
}
"#,
        )?;
        let hits = SelfTransferCheck.run(&file, "");
        assert_eq!(hits.len(), 1);
        assert_eq!(hits[0].severity, Severity::Low);
        Ok(())
    }

    #[test]
    fn passes_when_ne_assert_present() -> Result<(), syn::Error> {
        let file = parse_file(
            r#"
use soroban_sdk::{contractimpl, Address, Env};
pub struct C;
#[contractimpl]
impl C {
    pub fn transfer(env: Env, from: Address, to: Address, amount: i128) {
        assert!(from != to);
        let _ = (env, amount);
    }
}
"#,
        )?;
        let hits = SelfTransferCheck.run(&file, "");
        assert!(hits.is_empty());
        Ok(())
    }

    #[test]
    fn ignores_non_transfer_fn() -> Result<(), syn::Error> {
        let file = parse_file(
            r#"
use soroban_sdk::{contractimpl, Address, Env};
pub struct C;
#[contractimpl]
impl C {
    pub fn send(env: Env, from: Address, to: Address, amount: i128) {
        let _ = (env, from, to, amount);
    }
}
"#,
        )?;
        let hits = SelfTransferCheck.run(&file, "");
        assert!(hits.is_empty());
        Ok(())
    }

    #[test]
    fn ignores_transfer_with_single_address() -> Result<(), syn::Error> {
        let file = parse_file(
            r#"
use soroban_sdk::{contractimpl, Address, Env};
pub struct C;
#[contractimpl]
impl C {
    pub fn transfer(env: Env, to: Address, amount: i128) {
        let _ = (env, to, amount);
    }
}
"#,
        )?;
        let hits = SelfTransferCheck.run(&file, "");
        assert!(hits.is_empty());
        Ok(())
    }

// ---------------------------------------------------------------------------
// token_shared_storage

    fn token_shared_storage_run(src: &str) -> Vec<Finding> {
        let file = parse_file(src).unwrap();
        TokenSharedStorageCheck.run(&file, src)
    }

    #[test]
    fn flags_mixed_token_and_governance_keys() {
        let hits = token_shared_storage_run(r#"
use soroban_sdk::{contractimpl, Env};
pub struct C;
#[contractimpl]
impl C {
    pub fn store(env: Env) {
        env.storage().instance().set(&"balance_user", &100i128);
        env.storage().instance().set(&"proposal_id", &1u32);
    }
}
"#);
        assert_eq!(hits.len(), 1);
        assert_eq!(hits[0].check_name, soroban_checks::checks::token_shared_storage::CHECK_NAME);
        assert_eq!(hits[0].severity, Severity::Low);
    }

    #[test]
    fn flags_token_and_stake_keys() {
        let hits = token_shared_storage_run(r#"
use soroban_sdk::{contractimpl, Env};
pub struct C;
#[contractimpl]
impl C {
    pub fn store(env: Env) {
        env.storage().persistent().set(&"allowance_key", &50i128);
        env.storage().persistent().set(&"stake_amount", &200i128);
    }
}
"#);
        assert_eq!(hits.len(), 1);
    }

    #[test]
    fn does_not_flag_token_only() {
        let hits = token_shared_storage_run(r#"
use soroban_sdk::{contractimpl, Env};
pub struct C;
#[contractimpl]
impl C {
    pub fn store(env: Env) {
        env.storage().instance().set(&"balance_key", &100i128);
        env.storage().instance().set(&"allowance_key", &50i128);
    }
}
"#);
        assert!(hits.is_empty());
    }

    #[test]
    fn does_not_flag_governance_only() {
        let hits = token_shared_storage_run(r#"
use soroban_sdk::{contractimpl, Env};
pub struct C;
#[contractimpl]
impl C {
    pub fn store(env: Env) {
        env.storage().instance().set(&"vote_count", &10u32);
        env.storage().instance().set(&"proposal_id", &1u32);
    }
}
"#);
        assert!(hits.is_empty());
    }

// ---------------------------------------------------------------------------
// storage_key_collision

    fn storage_key_collision_run_on_src(src: &str) -> Result<Vec<Finding>, syn::Error> {
        let file = parse_file(src)?;
        Ok(StorageKeyCollisionCheck.run(&file, src))
    }

    #[test]
    fn flags_similar_keys() -> Result<(), syn::Error> {
        let hits = storage_key_collision_run_on_src(
            r#"
use soroban_sdk::{contractimpl, symbol_short, Env};

pub struct C;

const OWNER: soroban_sdk::Symbol = symbol_short!("owner");
const OWNER_ADDR: soroban_sdk::Symbol = symbol_short!("owner_addr");

#[contractimpl]
impl C {
    pub fn store_owner(env: Env, owner: soroban_sdk::Address) {
        env.storage().persistent().set(&OWNER, &owner);
        env.storage().persistent().set(&OWNER_ADDR, &owner);
    }
}
"#,
        )?;
        assert_eq!(hits.len(), 1);
        assert_eq!(hits[0].severity, Severity::Medium);
        assert_eq!(hits[0].check_name, soroban_checks::checks::storage_key_collision::CHECK_NAME);
        Ok(())
    }

    #[test]
    fn passes_when_keys_are_distinct() -> Result<(), syn::Error> {
        let hits = storage_key_collision_run_on_src(
            r#"
use soroban_sdk::{contractimpl, symbol_short, Env};

pub struct C;

const OWNER: soroban_sdk::Symbol = symbol_short!("owner");
const BALANCE: soroban_sdk::Symbol = symbol_short!("balance");

#[contractimpl]
impl C {
    pub fn store_data(env: Env, owner: soroban_sdk::Address, balance: i128) {
        env.storage().persistent().set(&OWNER, &owner);
        env.storage().persistent().set(&BALANCE, &balance);
    }
}
"#,
        )?;
        assert!(hits.is_empty());
        Ok(())
    }

// ---------------------------------------------------------------------------
// assert_for_auth

    #[test]
    fn detects_assert_with_address_equality() {
        let code = r#"
#[contractimpl]
impl MyContract {
    pub fn vulnerable_auth(env: Env, caller: Address) {
        assert!(caller == admin);
    }
}
        "#;
        let file = parse_file(code).unwrap();
        let check = AssertForAuthCheck;
        let findings = check.run(&file, code);
        assert_eq!(findings.len(), 1);
        assert_eq!(findings[0].check_name, soroban_checks::checks::assert_for_auth::CHECK_NAME);
        assert_eq!(findings[0].severity, Severity::High);
    }

    #[test]
    fn detects_assert_with_address_inequality() {
        let code = r#"
#[contractimpl]
impl MyContract {
    pub fn vulnerable_auth_ne(env: Env, caller: Address) {
        assert!(caller != admin);
    }
}
        "#;
        let file = parse_file(code).unwrap();
        let check = AssertForAuthCheck;
        let findings = check.run(&file, code);
        assert_eq!(findings.len(), 1);
        assert_eq!(findings[0].check_name, soroban_checks::checks::assert_for_auth::CHECK_NAME);
    }

    #[test]
    fn allows_assert_without_address() {
        let code = r#"
#[contractimpl]
impl MyContract {
    pub fn safe_assert(env: Env) {
        assert!(1 + 1 == 2);
    }
}
        "#;
        let file = parse_file(code).unwrap();
        let check = AssertForAuthCheck;
        let findings = check.run(&file, code);
        assert!(findings.is_empty());
    }

    #[test]
    fn allows_require_auth() {
        let code = r#"
#[contractimpl]
impl MyContract {
    pub fn safe_auth(env: Env, caller: Address) {
        env.require_auth(&caller);
    }
}
        "#;
        let file = parse_file(code).unwrap();
        let check = AssertForAuthCheck;
        let findings = check.run(&file, code);
        assert!(findings.is_empty());
    }

// ---------------------------------------------------------------------------
// Properties that hold across checks, and exact outputs.

use soroban_checks::checks::while_no_bound::ident_in_tokens;

fn all_checks_on(src: &str) -> Vec<(String, Vec<Finding>)> {
    let file = parse_file(src).expect("parses");
    let mut out: Vec<(String, Vec<Finding>)> = Vec::new();
    record(&mut out, PanicUsageCheck.name(), PanicUsageCheck.run(&file, src));
    record(&mut out, AuthorizeAsContractCheck.name(), AuthorizeAsContractCheck.run(&file, src));
    record(&mut out, FloatArithmeticCheck.name(), FloatArithmeticCheck.run(&file, src));
    record(&mut out, WeakRandomnessCheck.name(), WeakRandomnessCheck.run(&file, src));
    record(&mut out, SequenceNonceCheck.name(), SequenceNonceCheck.run(&file, src));
    record(&mut out, ZeroAmountCheck.name(), ZeroAmountCheck.run(&file, src));
    record(&mut out, StorageTypeConfusionCheck.name(), StorageTypeConfusionCheck.run(&file, src));
    record(&mut out, TierKeyCollisionCheck.name(), TierKeyCollisionCheck.run(&file, src));
    record(&mut out, StorageKeyCollisionCheck.name(), StorageKeyCollisionCheck.run(&file, src));
    record(&mut out, UnboundedInputStorageCheck.name(), UnboundedInputStorageCheck.run(&file, src));
    record(&mut out, TokenSharedStorageCheck.name(), TokenSharedStorageCheck.run(&file, src));
    record(&mut out, NoStdCheck.name(), NoStdCheck.run(&file, src));
    out
}

fn record(out: &mut Vec<(String, Vec<Finding>)>, name: &str, found: Vec<Finding>) {
    out.push((name.to_string(), found));
}

const MIXED_SRC: &str = r#"
use soroban_sdk::{contractimpl, Address, Env, Vec};
pub struct C;
#[contractimpl]
impl C {
    pub fn transfer(env: Env, from: Address, to: Address, amount: i128) {
        env.storage().temporary().set("owner", &from);
        env.storage().persistent().set("owner", &42u32);
        env.storage().instance().set("owner_addr", &amount);
        env.storage().persistent().set("balance", &amount);
        env.storage().persistent().set("stake", &amount);
        let x = 1.5 * 2.0;
        panic!("boom");
    }
    pub fn store(env: Env, items: Vec<u32>) {
        env.storage().persistent().set(&"items", &items);
    }
}
"#;

#[test]
fn every_finding_names_its_check_and_has_no_path() {
    let runs = all_checks_on(MIXED_SRC);
    let mut total = 0;
    for (name, found) in &runs {
        if let Some(first) = found.first() {
            for f in found {
                assert_eq!(&f.check_name, name);
                assert_eq!(f.file_path, "");
                assert_eq!(f.severity, first.severity);
                total += 1;
            }
        }
    }
    assert!(total >= 6, "{runs:?}");
}

#[test]
fn other_impl_blocks_change_no_finding() {
    let extra = format!("{MIXED_SRC}\nimpl Other {{\n    pub fn f(env: Env) {{ panic!(\"x\"); env.storage().persistent().set(\"owner\", &1u64); }}\n}}\n");
    let base = all_checks_on(MIXED_SRC);
    let more = all_checks_on(&extra);
    for ((n1, f1), (n2, f2)) in base.iter().zip(more.iter()) {
        assert_eq!(n1, n2);
        if n1 == "storage-key-collision" || n1 == "token-shared-storage" || n1 == "no-std" {
            continue;
        }
        let l1: Vec<(usize, String)> = f1.iter().map(|f| (f.line, f.description.clone())).collect();
        let l2: Vec<(usize, String)> = f2.iter().map(|f| (f.line, f.description.clone())).collect();
        assert_eq!(l1, l2, "{n1}");
    }
}

#[test]
fn storage_type_confusion_reports_keys_in_sorted_order() {
    let src = r#"
#[contractimpl]
impl C {
    pub fn a(env: Env) {
        env.storage().instance().set(&"zeta", &1u32);
        env.storage().instance().set(&"alpha", &true);
    }
    pub fn b(env: Env) {
        env.storage().instance().set(&"zeta", &true);
        env.storage().instance().set(&"alpha", &7i64);
    }
}
"#;
    let file = parse_file(src).unwrap();
    let hits = StorageTypeConfusionCheck.run(&file, src);
    assert_eq!(hits.len(), 2);
    assert_eq!(hits[0].line, 10);
    assert_eq!(hits[0].function_name, "b");
    assert_eq!(
        hits[0].description,
        "Storage key `alpha` is written with type `bool` in `a` (line 6) but with type `i64` in `b` (line 10). Readers expecting one type will deserialize garbage when the other type was stored."
    );
    assert!(hits[1].description.starts_with("Storage key `zeta` is written with type `u32` in `a` (line 5)"));
}

#[test]
fn storage_type_confusion_reads_macro_keys_and_hints() {
    let src = r#"
#[contractimpl]
impl C {
    pub fn a(env: Env, v: u32) {
        env.storage().instance().set(&symbol_short!("cfg"), &Config { v });
        env.storage().instance().set(&symbol_short!("cfg"), &(v as u64));
        env.storage().instance().set(&symbol_short!("cfg"), &make(v));
    }
}
"#;
    let file = parse_file(src).unwrap();
    let hits = StorageTypeConfusionCheck.run(&file, src);
    assert_eq!(hits.len(), 1);
    assert!(hits[0].description.contains("key `cfg`"), "{hits:?}");
    assert!(hits[0].description.contains("type `expr` in `a` (line 5) but with type `expr`") == false);
    assert!(hits[0].description.contains("but with type `make` in `a` (line 7)"), "{hits:?}");
}

#[test]
fn tier_key_collision_reports_every_use_of_a_key_once() {
    let src = r#"
#[contractimpl]
impl C {
    pub fn a(env: Env) {
        env.storage().temporary().set("k", &1u32);
        env.storage().persistent().get("k");
        env.storage().instance().has("k");
        env.storage().temporary().set("other", &1u32);
    }
}
"#;
    let file = parse_file(src).unwrap();
    let hits = TierKeyCollisionCheck.run(&file, src);
    assert_eq!(hits.len(), 3);
    let lines: Vec<usize> = hits.iter().map(|f| f.line).collect();
    assert_eq!(lines, vec![5, 6, 7]);
    assert_eq!(
        hits[1].description,
        "Key `k` is used in both temporary and persistent/instance storage (tier `persistent` here). Reads from one tier will never see writes to the other, causing stale or empty results."
    );
}

#[test]
fn map_key_explosion_counts_each_key_once() {
    let mut body = String::new();
    for i in 0..9 {
        body.push_str(&format!("        m.set(\"k{i}\", 1);\n        m.set(\"k{i}\", 2);\n"));
    }
    let src = format!("#[contractimpl]\nimpl C {{\n    pub fn f(env: Env) {{\n{body}    }}\n}}\n");
    let file = parse_file(&src).unwrap();
    let hits = MapKeyExplosionCheck.run(&file, &src);
    assert_eq!(hits.len(), 1);
    assert!(hits[0].description.contains("uses Map with 9 distinct string literal keys (threshold: 8)"), "{hits:?}");
}

#[test]
fn lowercase_is_applied_to_nonce_keys() {
    let src = r#"
#[contractimpl]
impl C {
    pub fn f(env: Env, token: Address) {
        token.transfer(&a, &b, &1);
        env.storage().persistent().set(&"USER_NONCE", &n);
    }
}
"#;
    let file = parse_file(src).unwrap();
    let hits = NonceIncrementOrderCheck.run(&file, src);
    assert_eq!(hits.len(), 1);
    assert_eq!(hits[0].line, 5);
}

#[test]
fn lowercase_is_applied_to_similar_keys() {
    let src = r#"
fn f(env: Env) {
    env.storage().persistent().set(&"Owner", &a);
    env.storage().persistent().set(&"owner_ADDR", &b);
    env.storage().persistent().set(&"ab", &c);
}
"#;
    let file = parse_file(src).unwrap();
    let hits = StorageKeyCollisionCheck.run(&file, src);
    assert_eq!(hits.len(), 1);
    assert_eq!(hits[0].line, 3);
    assert_eq!(
        hits[0].description,
        "Potential storage key collision between 'Owner' and 'owner_ADDR'. Consider using more distinct key names to avoid accidental overwrites."
    );
}

#[test]
fn ident_pieces_split_at_non_alphanumeric_characters() {
    assert!(ident_in_tokens("count < max", "max"));
    assert!(ident_in_tokens("count<max", "count"));
    assert!(!ident_in_tokens("countmax", "max"));
    assert!(!ident_in_tokens("a\u{e9}max", "max"));
    assert!(ident_in_tokens("a\u{2014}max", "max"));
}

#[test]
fn unbounded_input_storage_exact_description() {
    let src = r#"
#[contractimpl]
impl C {
    pub fn store(env: Env, items: Vec<u32>) {
        let copy = items.clone();
        env.storage().persistent().set(&"items", &copy);
    }
}
"#;
    let file = parse_file(src).unwrap();
    let hits = UnboundedInputStorageCheck.run(&file, src);
    assert_eq!(hits.len(), 1);
    assert_eq!(hits[0].line, 6);
    assert_eq!(
        hits[0].description,
        "Method `store` writes Vec/Map parameter `copy` directly to storage \\\nwithout a preceding size guard (`.len()` comparison). This may cause \\\nthe storage entry to exceed ledger limits and brick the contract."
    );
}

#[test]
fn unbounded_input_storage_any_length_check_guards() {
    let src = r#"
#[contractimpl]
impl C {
    pub fn store(env: Env, items: Vec<u32>, other: Map<u32, u32>) {
        if other.len() > 10 { panic!("too many"); }
        env.storage().persistent().set(&"items", &items);
    }
}
"#;
    let file = parse_file(src).unwrap();
    assert!(UnboundedInputStorageCheck.run(&file, src).is_empty());
}

#[test]
fn token_shared_storage_lists_keys_once_each() {
    let src = r#"
fn f(env: Env) {
    env.storage().persistent().set(&"user_balance", &1);
    env.storage().persistent().get(&"user_balance");
    env.storage().persistent().set(&symbol_short!("stake"), &1);
    env.storage().persistent().set(&"vote_count", &1);
}
"#;
    let file = parse_file(src).unwrap();
    let hits = TokenSharedStorageCheck.run(&file, src);
    assert_eq!(hits.len(), 1);
    assert_eq!(hits[0].line, 3);
    assert_eq!(hits[0].function_name, "");
    assert_eq!(
        hits[0].description,
        "Token storage keys (user_balance) and governance/staking keys (stake, vote_count) share the same storage namespace. This risks key collisions and unintended data corruption. Separate token and non-token logic into distinct contracts or storage domains."
    );
}

#[test]
fn uncapped_slippage_accepts_a_guard_in_source_text() {
    let src = "#[contractimpl]\nimpl C {\n    pub fn trade(env: Env, max_slippage: u32) {\n        // max_slippage<=100\n    }\n}\n";
    let file = parse_file(src).unwrap();
    assert!(UncappedSlippageCheck.run(&file, src).is_empty());
    let hits = UncappedSlippageCheck.run(&file, "");
    assert_eq!(hits.len(), 1);
    assert_eq!(hits[0].line, 3);
    assert_eq!(
        hits[0].description,
        "`trade` accepts `max_slippage` but never asserts `max_slippage <= MAX`. A caller can pass 100% slippage, disabling price protection and enabling sandwich attacks."
    );
}

#[test]
fn uncapped_slippage_reads_the_line_after_the_body() {
    let src = "#[contractimpl]\nimpl C {\n    pub fn swap(env: Env, slippage: u32) {\n    }\n// slippage <= 5\n}\n";
    let file = parse_file(src).unwrap();
    assert!(UncappedSlippageCheck.run(&file, src).is_empty());
    let far = "#[contractimpl]\nimpl C {\n    pub fn swap(env: Env, slippage: u32) {\n    }\n\n// slippage <= 6\n}\n";
    let file2 = parse_file(far).unwrap();
    assert_eq!(UncappedSlippageCheck.run(&file2, far).len(), 1);
}

#[test]
fn uncapped_slippage_ignores_private_and_other_names() {
    let src = "#[contractimpl]\nimpl C {\n    fn swap(env: Env, slippage: u32) {}\n    pub fn swap2(env: Env, slippage: u32) {}\n}\n";
    let file = parse_file(src).unwrap();
    assert!(UncappedSlippageCheck.run(&file, src).is_empty());
}

#[test]
fn partial_write_counts_indices_within_each_block() {
    let src = r#"
#[contractimpl]
impl C {
    pub fn f(env: Env) -> Result<(), Error> {
        env.storage().persistent().set(&K, &1);
        let y = 2;
        do_it()?;
        Ok(())
    }
}
"#;
    let file = parse_file(src).unwrap();
    let hits = PartialWriteOnErrorCheck.run(&file, src);
    assert_eq!(hits.len(), 1);
    assert_eq!(hits[0].line, 5);
    assert_eq!(
        hits[0].description,
        "Method `f` writes to persistent storage before a fallible operation. If the operation fails, the contract will be left in a partially-updated state."
    );
}

#[test]
fn contracterror_use_inside_function_keeps_empty_function_name() {
    let src = r#"
pub enum MyError { A = 1 }
#[contractimpl]
impl C {
    pub fn f(env: Env) {
        panic_with_error!(&env, crate::MyError::A);
    }
}
"#;
    let file = parse_file(src).unwrap();
    let hits = ContracterrorAttrCheck.run(&file, src);
    assert_eq!(hits.len(), 1);
    assert_eq!(hits[0].line, 6);
    assert_eq!(hits[0].function_name, "");
    assert_eq!(
        hits[0].description,
        "panic_with_error! uses enum `MyError` which lacks both #[contracterror] and #[repr(u32)] attributes. Without these, the Soroban host cannot map the error to a structured error code."
    );
}

#[test]
fn contracterror_later_function_covering_the_line_names_it() {
    let src = "pub enum E { A = 1 }\nfn outer() {\n    panic_with_error!(&env, E::A); fn inner() {}\n}\n";
    let file = parse_file(src).unwrap();
    let hits = ContracterrorAttrCheck.run(&file, src);
    assert_eq!(hits.len(), 1);
    assert_eq!(hits[0].line, 3);
    assert_eq!(hits[0].function_name, "inner");
}

#[test]
fn has_get_race_needs_a_call_in_between() {
    let src = r#"
#[contractimpl]
impl C {
    pub fn a(env: Env) {
        if env.storage().persistent().has(&K) {
            let v: u32 = env.storage().persistent().get(&K).unwrap();
        }
    }
    pub fn b(env: Env) {
        if env.storage().temporary().has(&K) {
            env.events().publish((1,), 2);
            let v: u32 = env.storage().persistent().get(&K).unwrap();
            let w: u32 = env.storage().temporary().get(&K).unwrap();
        }
    }
}
"#;
    let file = parse_file(src).unwrap();
    let hits = StorageHasGetRaceCheck.run(&file, src);
    assert_eq!(hits.len(), 1, "{hits:?}");
    assert_eq!(hits[0].function_name, "b");
    assert_eq!(hits[0].line, 13);
    assert!(hits[0].description.contains("on `temporary` storage"));
}

#[test]
fn secp256k1_reports_first_recover_when_binding_is_unchecked() {
    let src = r#"
#[contractimpl]
impl C {
    pub fn v(env: Env) {
        let key: BytesN<65> = env.crypto().secp256k1_recover(&d, &s, 0);
        env.crypto().secp256k1_recover(&d, &s, 1);
    }
}
"#;
    let file = parse_file(src).unwrap();
    let hits = Secp256k1UncheckedCheck.run(&file, src);
    assert_eq!(hits.len(), 1);
    assert_eq!(hits[0].line, 5);
    assert!(hits[0].description.starts_with("Method `v` calls `secp256k1_recover()` but the recovered public key is never compared"));
}

#[test]
fn contracttype_checks_structs_and_enums_by_name() {
    let src = r#"
#[derive(Clone, contracttype)]
pub struct Good { a: u32 }
pub struct Bad { a: u32 }
pub enum Kind { A }
#[contractimpl]
impl C {
    pub fn f(env: Env) {
        let g = Good { a: 1 };
        env.storage().persistent().set(&K, &g);
        let b = Bad { a: 1 };
        env.storage().instance().set(&K, &b);
        env.storage().instance().set(&K, &Kind);
    }
}
"#;
    let file = parse_file(src).unwrap();
    let hits = MissingContracttypeCheck.run(&file, src);
    assert_eq!(hits.len(), 2, "{hits:?}");
    assert_eq!(hits[0].line, 4);
    assert_eq!(
        hits[0].description,
        "Struct `Bad` is stored in env.storage() but lacks #[contracttype] attribute. This will cause runtime serialization errors."
    );
    assert!(hits[1].description.starts_with("Enum `Kind` is stored"));
}

#[test]
fn token_burn_auth_for_args_covers_address_params() {
    let src = r#"
#[contractimpl]
impl C {
    pub fn a(env: Env, from: Address, amount: i128) {
        env.require_auth_for_args((from.clone(),).into_val(&env));
        client.burn(&from, &amount);
    }
    pub fn b(env: Env, from: Address, amount: i128) {
        token.burn(&from, &amount);
    }
}
"#;
    let file = parse_file(src).unwrap();
    let hits = TokenBurnAuthCheck.run(&file, src);
    assert_eq!(hits.len(), 1);
    assert_eq!(hits[0].function_name, "b");
    assert_eq!(
        hits[0].description,
        "Method `b` calls `burn(from, ...)` without prior `require_auth()` on the `from` address. This allows burning tokens from arbitrary addresses without authorization."
    );
}

#[test]
fn balance_overflow_flags_each_unchecked_add() {
    let src = r#"
#[contractimpl]
impl C {
    pub fn dep(env: Env, amount: i128) {
        let mut b: i128 = env.storage().persistent().get(&K).unwrap_or(0);
        b += amount;
        let c = b + 1;
        env.storage().persistent().set(&K, &c);
    }
}
"#;
    let file = parse_file(src).unwrap();
    let hits = BalanceOverflowCheck.run(&file, src);
    assert_eq!(hits.len(), 2);
    assert_eq!(hits[0].line, 6);
    assert!(hits[0].description.contains("adds to it with `+=`"));
    assert!(hits[1].description.contains("adds to it with `+` without"));
}

#[test]
fn instance_vec_growth_reports_first_push() {
    let src = r#"
#[contractimpl]
impl C {
    pub fn add(env: Env, x: u32) {
        let mut v: Vec<u32> = env.storage().instance().get(&K).unwrap();
        v.push_back(x);
        v.push_front(x);
        env.storage().instance().set(&K, &v);
    }
}
"#;
    let file = parse_file(src).unwrap();
    let hits = InstanceVecGrowthCheck.run(&file, src);
    assert_eq!(hits.len(), 1);
    assert_eq!(hits[0].line, 6);
}

#[test]
fn self_transfer_guard_inside_macro_counts() {
    let src = r#"
#[contractimpl]
impl C {
    pub fn transfer(env: Env, from: Address, to: Address) {
        assert!(from != to);
    }
}
"#;
    let file = parse_file(src).unwrap();
    assert!(SelfTransferCheck.run(&file, src).is_empty());
}

#[test]
fn trait_default_bodies_are_walked() {
    let src = "trait T {\n    fn f(env: Env) {\n        env.storage().persistent().set(&\"balance\", &1);\n        env.storage().persistent().set(&\"vote\", &1);\n    }\n}\n";
    let file = parse_file(src).unwrap();
    let hits = TokenSharedStorageCheck.run(&file, src);
    assert_eq!(hits.len(), 1);
    assert_eq!(hits[0].line, 3);
}

#[test]
fn negative_deposit_other_comparison_is_no_guard() {
    let src = r#"pub struct C; #[contractimpl] impl C { pub fn deposit(env: Env, from: Address, amount: i128) { let bal: i128 = env.storage().persistent().get(&from).unwrap_or(0); if bal > 1000 { } env.storage().persistent().set(&from, &(bal + amount)); } }"#;
    let file = parse_file(src).unwrap();
    assert_eq!(NegativeDepositCheck.run(&file, "").len(), 1);
}

#[test]
fn negative_deposit_guard_after_write_does_not_count() {
    let src = r#"pub struct C; #[contractimpl] impl C { pub fn deposit(env: Env, from: Address, amount: i128) { env.storage().persistent().set(&from, &amount); if amount <= 0 { panic!("bad"); } } }"#;
    let file = parse_file(src).unwrap();
    assert_eq!(NegativeDepositCheck.run(&file, "").len(), 1);
}

#[test]
fn negative_deposit_amount_guard_before_write_passes() {
    let src = r#"pub struct C; #[contractimpl] impl C { pub fn deposit(env: Env, from: Address, amount: i128) { if amount <= 0 { panic!("bad"); } env.storage().persistent().set(&from, &amount); } }"#;
    let file = parse_file(src).unwrap();
    assert!(NegativeDepositCheck.run(&file, "").is_empty());
}

#[test]
fn authorize_as_contract_later_require_auth_is_flagged() {
    let src = r#"#[contractimpl] impl MyContract { pub fn late_auth(env: Env) { env.authorize_as_current_contract(); env.require_auth(); } }"#;
    let file = parse_file(src).unwrap();
    assert_eq!(AuthorizeAsContractCheck.run(&file, "").len(), 1);
}

#[test]
fn uncapped_slippage_assert_statement_is_a_guard_without_source() {
    let src = r#"
pub struct C;
#[contractimpl]
impl C {
    pub fn swap(env: soroban_sdk::Env, amount: i128, slippage: u32) {
        assert!(slippage <= 1000);
        let out = amount - (amount * slippage as i128 / 10000);
        env.storage().instance().set(&1u32, &out);
    }
}
"#;
    let file = parse_file(src).unwrap();
    assert!(UncappedSlippageCheck.run(&file, "").is_empty());
}

#[test]
fn uncapped_slippage_source_only_suppresses() {
    let src = r#"
pub struct C;
#[contractimpl]
impl C {
    pub fn swap(env: soroban_sdk::Env, amount: i128, slippage: u32) {
        let capped = slippage <= 1000;
        env.storage().instance().set(&1u32, &amount);
    }
    pub fn trade(env: soroban_sdk::Env, amount: i128, max_slippage: u32) {
        env.storage().instance().set(&1u32, &amount);
    }
}
"#;
    let file = parse_file(src).unwrap();
    let with_text = UncappedSlippageCheck.run(&file, src);
    let without = UncappedSlippageCheck.run(&file, "");
    assert!(with_text.len() <= without.len());
    assert_eq!(with_text.len(), 1);
    assert_eq!(with_text[0].function_name, "trade");
}

#[test]
fn storage_key_collision_same_key_twice_is_no_collision() {
    let src = r#"pub struct C; #[contractimpl] impl C { pub fn a(env: Env, o: Address) { env.storage().persistent().set(&OWNER, &o); } pub fn b(env: Env, o: Address) { env.storage().persistent().set(&OWNER, &o); } }"#;
    let file = parse_file(src).unwrap();
    assert!(StorageKeyCollisionCheck.run(&file, "").is_empty());
}

#[test]
fn zero_amount_equality_check_passes() {
    let src = r#"#[contractimpl] impl T { pub fn burn(env: Env, from: Address, amount: i128) { if amount == 0 { panic!("zero amount"); } env.storage().instance().set(&key, &amount); } }"#;
    let file = parse_file(src).unwrap();
    assert!(ZeroAmountCheck.run(&file, "").is_empty());
}

#[test]
fn zero_amount_reversed_comparison_passes() {
    let src = r#"#[contractimpl] impl T { pub fn burn(env: Env, from: Address, amount: i128) { if 0 >= amount { panic!("zero amount"); } env.storage().instance().set(&key, &amount); } }"#;
    let file = parse_file(src).unwrap();
    assert!(ZeroAmountCheck.run(&file, "").is_empty());
}

#[test]
fn migration_guard_macro_key_version_read_passes() {
    let src = r#"#[contractimpl] impl C { pub fn migrate(env: Env) { let v: u32 = env.storage().instance().get(&symbol_short!("version")).unwrap_or(0); env.storage().instance().set(&DATA, &1u32); } }"#;
    let file = parse_file(src).unwrap();
    assert!(MigrationGuardCheck.run(&file, "").is_empty());
}

#[test]
fn partial_write_reported_once_per_function() {
    let src = r#"#[contractimpl] impl Contract { pub fn transfer(env: Env, from: Address, to: Address) -> Result<(), ()> { env.storage().persistent().set(&from, &0i128); env.storage().persistent().set(&to, &0i128); from.require_auth()?; Ok(()) } }"#;
    let file = parse_file(src).unwrap();
    assert_eq!(PartialWriteOnErrorCheck.run(&file, "").len(), 1);
}

#[test]
fn token_burn_later_require_auth_is_flagged() {
    let src = r#"#[contractimpl] impl Contract { pub fn burn_tokens(env: Env, token: Address, from: Address, amount: i128) { let token_client = soroban_sdk::token::Client::new(&env, &token); token_client.burn(&from, &amount); from.require_auth(); } }"#;
    let file = parse_file(src).unwrap();
    let hits = TokenBurnAuthCheck.run(&file, "");
    assert_eq!(hits.len(), 1);
    assert_eq!(hits[0].function_name, "burn_tokens");
}

#[test]
fn storage_type_hint_ignores_one_reference() {
    let src = r#"#[contractimpl] impl C { pub fn a(env: Env) { env.storage().instance().set(&"COUNT", &5u32); } pub fn b(env: Env) { env.storage().instance().set(&"COUNT", 7u32); } }"#;
    let file = parse_file(src).unwrap();
    assert!(StorageTypeConfusionCheck.run(&file, "").is_empty());
}

#[test]
fn first_macro_arg_stops_at_top_level_comma() {
    let ts = vec![
        ast::TokenTree::Ident { name: "amount".to_string() },
        ast::TokenTree::Punct { ch: '>' },
        ast::TokenTree::Literal { text: "0".to_string() },
        ast::TokenTree::Punct { ch: ',' },
        ast::TokenTree::Literal { text: "\"bad\"".to_string() },
    ];
    assert_eq!(extract_first_macro_arg(&ts), 3);
    let no_comma = vec![ast::TokenTree::Ident { name: "x".to_string() }, ast::TokenTree::Group];
    assert_eq!(extract_first_macro_arg(&no_comma), 2);
}

#[test]
fn negative_deposit_assert_with_message_is_a_guard() {
    let src = r#"pub struct C; #[contractimpl] impl C { pub fn deposit(env: Env, from: Address, amount: i128) { assert!(amount > 0, "amount must be positive"); env.storage().persistent().set(&from, &amount); } }"#;
    let file = parse_file(src).unwrap();
    assert!(NegativeDepositCheck.run(&file, "").is_empty());
}
