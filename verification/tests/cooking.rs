use exprdsl::cooking::instraction::{Instraction, Nodes};
use exprdsl::cooking::required::Required;
use exprdsl::cooking::tree_parser::{parse, Tree};
use exprdsl::cooking::{
    prepare, Amount, Cooking, CookingExpr, Ingredient, Operations, Processes, Recipe,
};
use exprdsl::dsl::{AnalysisError, Compose, Expr, Ident};
use exprdsl::text::{decimal_text, push_quantity};

fn kinds(items: &[Ingredient<String>]) -> Vec<String> {
    items.iter().map(|i| i.kind.clone()).collect()
}

fn grams(items: &[Ingredient<String>]) -> Vec<u64> {
    items
        .iter()
        .map(|i| match i.amount {
            Amount::Gram(n) => n,
            _ => panic!("not in grams"),
        })
        .collect()
}

fn outline(tree: &Tree<Ingredient<String>>) -> String {
    match tree {
        Tree::Leaf(x) => x.kind.clone(),
        Tree::Branch(p, t) => {
            let step = match p {
                Processes::Cuts { shape } => format!("cut:{}", shape),
                Processes::Stakes { until } => format!("stake:{}", until),
                Processes::Stew { until } => format!("stew:{}", until),
                _ => "other".to_string(),
            };
            format!("{}({})", step, outline(t))
        }
        Tree::Node(a, b) => format!("[{} {}]", outline(a), outline(b)),
    }
}

fn steps(chain: &Nodes) -> String {
    match chain {
        Nodes::Start(text) => format!("<{}>", text),
        Nodes::Next(text, before) => format!("{} <{}>", steps(before), text),
        Nodes::Join(a, b) => format!("[{} | {}]", steps(a), steps(b)),
    }
}

fn quantity(m: u64) -> String {
    let mut t = String::new();
    push_quantity(&mut t, m);
    t
}

#[test]
fn make_curry() {
    let recipe = Recipe::new(
        || {
            let beef = Amount::Gram(100_000).of("beef".to_string()).cuts("block");
            let onion = Amount::Pcs(500).of("onion".to_string()).cuts("dice");
            let potato = Amount::Pcs(500).of("potato".to_string()).cuts("block");
            let currot = Amount::Pcs(250).of("currot".to_string()).cuts("block");
            let water = Amount::MilliLitter(400_000).of("water".to_string());
            let loux = Amount::Pcs(1_000).of("loux".to_string());
            let oil = Amount::Tsp(1_000).of("oil".to_string());

            beef.joins(onion)
                .joins(potato)
                .joins(currot)
                .stakes_with(oil, 1_000)
                .stew_with(water, 15_000)
                .stew_with(loux, 10_000)
        },
        "curry".to_string(),
    );

    println!("{:#?}", recipe.parse());

    let needed = recipe.needed().unwrap();
    for i in needed.iter() {
        println!("{:?}", i);
    }
    assert_eq!(
        kinds(&needed),
        vec!["beef", "onion", "potato", "currot", "oil", "water", "loux"]
    );
    assert!(matches!(needed[0].amount, Amount::Gram(100_000)));
    assert!(matches!(needed[3].amount, Amount::Pcs(250)));
    assert!(matches!(needed[4].amount, Amount::Tsp(1_000)));
    assert!(matches!(needed[5].amount, Amount::MilliLitter(400_000)));
    assert_eq!(
        outline(&recipe.parse().unwrap()),
        "stew:10000([stew:15000([stake:1000([[[[cut:block(beef) cut:dice(onion)] \
         cut:block(potato)] cut:block(currot)] oil]) water]) loux])"
    );
}

#[test]
fn join_collects_left_then_right() {
    let left = Amount::Gram(2).of("flour".to_string()).joins(Amount::Gram(3).of("salt".to_string()));
    let right = Amount::Gram(5).of("yeast".to_string());
    let l = Required::collect(&left, 4).unwrap();
    let r = Required::collect(&right, 4).unwrap();
    let both = Required::collect(
        &Amount::Gram(2)
            .of("flour".to_string())
            .joins(Amount::Gram(3).of("salt".to_string()))
            .joins(Amount::Gram(5).of("yeast".to_string())),
        4,
    )
    .unwrap();
    let mut expected = kinds(&l);
    expected.extend(kinds(&r));
    assert_eq!(kinds(&both), expected);
    assert_eq!(kinds(&both), vec!["flour", "salt", "yeast"]);
    let mut amounts = grams(&l);
    amounts.extend(grams(&r));
    assert_eq!(grams(&both), amounts);
    assert_eq!(grams(&both), vec![8, 12, 20]);
}

#[test]
fn plain_pair_collects_like_a_join() {
    let pair = Amount::Gram(2).of("flour".to_string()).combine(Amount::Gram(3).of("salt".to_string()));
    let both = Required::collect(&pair, 1).unwrap();
    assert_eq!(kinds(&both), vec!["flour", "salt"]);
}

#[test]
fn a_factor_of_one_changes_nothing() {
    let expr = Amount::Gram(250).of("rice".to_string()).joins(Amount::Pinch.of("salt".to_string()));
    let needed = Required::collect(&expr, 1).unwrap();
    assert!(matches!(needed[0].amount, Amount::Gram(250)));
    assert!(matches!(needed[1].amount, Amount::Pinch));
    let recipe = Recipe::new(
        || Amount::Gram(250).of("rice".to_string()).joins(Amount::Pinch.of("salt".to_string())),
        "rice".to_string(),
    );
    let same = recipe.needed().unwrap();
    assert_eq!(kinds(&same), kinds(&needed));
    assert!(matches!(same[0].amount, Amount::Gram(250)));
}

#[test]
fn amounts_scale_by_unit() {
    assert!(matches!(Amount::Pcs(500).scaled(3), Some(Amount::Pcs(1_500))));
    assert!(matches!(Amount::Tsp(7).scaled(0), Some(Amount::Tsp(0))));
    assert!(matches!(Amount::Gram(1).scaled(u64::MAX), Some(Amount::Gram(u64::MAX))));
    assert!(matches!(Amount::MilliLitter(2).scaled(u64::MAX), None));
    assert!(matches!(Amount::Pinch.scaled(u64::MAX), Some(Amount::Pinch)));
}

#[test]
fn an_amount_that_overflows_is_reported() {
    let expr = Amount::Gram(1).of("a".to_string()).joins(Amount::Gram(u64::MAX).of("b".to_string()));
    assert!(matches!(
        Required::collect(&expr, 2),
        Err(AnalysisError::Overflow)
    ));
    assert!(Required::collect(&expr, 1).is_ok());
}

#[test]
fn steps_add_no_ingredient() {
    let expr = Amount::Gram(1).of("a".to_string()).cuts("dice").stakes(2_000).stew(500);
    let needed = Required::collect(&expr, 1).unwrap();
    assert_eq!(kinds(&needed), vec!["a"]);
}

#[test]
fn a_step_without_behaviour_is_reported() {
    let boiled = Amount::Gram(1).of("egg".to_string()).boils(6_000);
    match Required::collect(&boiled, 1) {
        Err(AnalysisError::UnsupportedOperation(tag)) => assert_eq!(tag, "Boils"),
        other => panic!("expected an unsupported operation, got {:?}", other),
    }
    match parse(&boiled) {
        Err(AnalysisError::UnsupportedOperation(tag)) => assert_eq!(tag, "Boils"),
        other => panic!("expected an unsupported operation, got {:?}", other),
    }
    match Instraction::describe(&boiled) {
        Err(AnalysisError::UnsupportedOperation(tag)) => assert_eq!(tag, "Boils"),
        other => panic!("expected an unsupported operation, got {:?}", other),
    }
    let fried = Amount::Gram(1)
        .of("egg".to_string())
        .apply_process(Processes::Fries { until: 1 });
    match Required::collect(&fried, 1) {
        Err(AnalysisError::UnsupportedOperation(tag)) => assert_eq!(tag, "Fries"),
        other => panic!("expected an unsupported operation, got {:?}", other),
    }
    let waited = Amount::Gram(1)
        .of("egg".to_string())
        .joins(Amount::Gram(1).of("dough".to_string()).apply_process(Processes::Waits { until: 1 }));
    match parse(&waited) {
        Err(AnalysisError::UnsupportedOperation(tag)) => assert_eq!(tag, "Waits"),
        other => panic!("expected an unsupported operation, got {:?}", other),
    }
}

#[test]
fn supported_steps() {
    assert!(Processes::Cuts { shape: "dice".to_string() }.supported());
    assert!(Processes::Stakes { until: 1 }.supported());
    assert!(Processes::Stew { until: 1 }.supported());
    assert!(!Processes::Fries { until: 1 }.supported());
    assert!(!Processes::Boils { until: 1 }.supported());
    assert!(!Processes::Waits { until: 1 }.supported());
}

#[test]
fn a_step_does_not_look_at_its_right_operand() {
    let expr = Amount::Gram(1).of("a".to_string()).apply(
        Operations::Processes(Processes::Stew { until: 1_000 }),
        Amount::Gram(1).of("b".to_string()).boils(1),
    );
    let needed = Required::collect(&expr, 1).unwrap();
    assert_eq!(kinds(&needed), vec!["a"]);
    assert_eq!(outline(&parse(&expr).unwrap()), "stew:1000(a)");
}

#[test]
fn structure_of_a_recipe() {
    let expr = prepare("beef".to_string(), Amount::Gram(100_000))
        .cuts("block")
        .joins(prepare("oil".to_string(), Amount::Tsp(1_000)))
        .stakes(1_500);
    assert_eq!(outline(&parse(&expr).unwrap()), "stake:1500([cut:block(beef) oil])");
    match parse(&expr).unwrap() {
        Tree::Branch(Processes::Stakes { until: 1_500 }, inner) => match &*inner {
            Tree::Node(_, right) => match &**right {
                Tree::Leaf(x) => {
                    assert_eq!(x.kind, "oil");
                    assert!(matches!(x.amount, Amount::Tsp(1_000)));
                }
                _ => panic!("expected a leaf"),
            },
            _ => panic!("expected a join"),
        },
        _ => panic!("expected a step"),
    }
}

#[test]
fn a_missing_operand_is_reported() {
    let hole: Ident<Ingredient<String>, Operations> = Ident::new();
    assert!(matches!(parse(&hole), Err(AnalysisError::MissingOperand)));
    let hole: Ident<Ingredient<String>, Operations> = Ident::new();
    let joined = Amount::Gram(1).of("a".to_string()).joins(hole);
    assert!(matches!(parse(&joined), Err(AnalysisError::MissingOperand)));
    let hole: Ident<Ingredient<String>, Operations> = Ident::new();
    assert!(matches!(parse(&hole.stew(1)), Err(AnalysisError::MissingOperand)));
    let hole: Ident<Ingredient<String>, Operations> = Ident::new();
    assert!(Required::collect(&hole, 1).unwrap().is_empty());
}

#[test]
fn instructions_of_a_recipe() {
    let expr = Amount::Gram(100_000)
        .of("beef".to_string())
        .cuts("block")
        .joins(Amount::Pcs(500).of("onion".to_string()))
        .stakes_with(Amount::Tsp(1_000).of("oil".to_string()), 1_000)
        .stew(15_500);
    let chain = Instraction::describe(&expr).unwrap();
    assert_eq!(
        steps(&chain),
        "[[<prepare beef> <cut block> | <prepare onion>] | <prepare oil>] <stake 1> <stew 15.5>"
    );
}

#[test]
fn a_fresh_writer_holds_no_chain() {
    assert!(Instraction::new().into_groups().is_none());
    let hole: Ident<Ingredient<String>, Operations> = Ident::new();
    assert!(matches!(
        Instraction::describe(&hole),
        Err(AnalysisError::MissingOperand)
    ));
}

#[test]
fn a_writer_finds_no_operand_in_the_placeholder() {
    let hole: Ident<Ingredient<String>, Operations> = Ident::new();
    let joined = Amount::Gram(1).of("a".to_string()).joins(hole);
    assert!(matches!(
        Instraction::describe(&joined),
        Err(AnalysisError::MissingOperand)
    ));
    let hole: Ident<Ingredient<String>, Operations> = Ident::new();
    let joined = hole.joins(Amount::Gram(1).of("a".to_string()));
    assert!(matches!(
        Instraction::describe(&joined),
        Err(AnalysisError::MissingOperand)
    ));
    let hole: Ident<Ingredient<String>, Operations> = Ident::new();
    assert!(matches!(
        Instraction::describe(&hole.stew(1_000)),
        Err(AnalysisError::MissingOperand)
    ));
    let hole: Ident<Ingredient<String>, Operations> = Ident::new();
    match Instraction::describe(&hole.boils(1_000)) {
        Err(AnalysisError::UnsupportedOperation(tag)) => assert_eq!(tag, "Boils"),
        other => panic!("expected an unsupported operation, got {:?}", other),
    }
}

#[test]
fn a_writer_keeps_its_chain_when_a_step_fails() {
    let mut writer = Instraction::new();
    assert!(Amount::Gram(1).of("a".to_string()).cuts("dice").analyze_with(&mut writer).is_ok());
    let hole: Ident<Ingredient<String>, Operations> = Ident::new();
    assert!(hole.stew(1).analyze_with(&mut writer).is_err());
    assert!(Amount::Gram(1).of("b".to_string()).boils(1).analyze_with(&mut writer).is_err());
    assert_eq!(steps(&writer.into_groups().unwrap()), "<prepare a> <cut dice>");
}

#[test]
fn quantities_as_text() {
    assert_eq!(quantity(0), "0");
    assert_eq!(quantity(1_000), "1");
    assert_eq!(quantity(15_000), "15");
    assert_eq!(quantity(500), "0.5");
    assert_eq!(quantity(250), "0.25");
    assert_eq!(quantity(1_001), "1.001");
    assert_eq!(quantity(1_010), "1.01");
    assert_eq!(quantity(1_100), "1.1");
    assert_eq!(quantity(7), "0.007");
    assert_eq!(quantity(70), "0.07");
    assert_eq!(quantity(u64::MAX), "18446744073709551.615");
}

#[test]
fn integers_as_text() {
    assert_eq!(decimal_text(0), "0");
    assert_eq!(decimal_text(-9), "-9");
    assert_eq!(decimal_text(1_234_567_890), "1234567890");
    assert_eq!(decimal_text(i64::MIN), "-9223372036854775808");
    assert_eq!(decimal_text(i64::MAX), "9223372036854775807");
}

#[test]
fn a_recipe_gives_back_its_expression() {
    let recipe = Recipe::new(|| Amount::Pinch.of("salt".to_string()), "brine".to_string());
    let expr = recipe.into_expr();
    assert_eq!(kinds(&Required::collect(&expr, 1).unwrap()), vec!["salt"]);
}

#[test]
fn a_collector_hands_out_what_it_gathered() {
    let mut collector: Required<String> = Required::scaled_by(2);
    let expr = Amount::Gram(3).of("a".to_string()).joins(Amount::Gram(4).of("b".to_string()));
    assert!(expr.analyze_with(&mut collector).is_ok());
    assert!(Amount::Gram(u64::MAX).of("c".to_string()).analyze_with(&mut collector).is_err());
    assert!(Amount::Gram(5).of("d".to_string()).boils(1).analyze_with(&mut collector).is_err());
    let items = collector.into_vec();
    assert_eq!(kinds(&items), vec!["a", "b"]);
    assert_eq!(grams(&items), vec![6, 8]);
    let empty: Required<String> = Required::new();
    assert!(empty.into_vec().is_empty());
}

#[test]
fn clones_are_equal() {
    let salt = Ingredient { kind: "salt".to_string(), amount: Amount::Pinch };
    assert_eq!(salt.clone(), salt);
    let cut = Operations::Processes(Processes::Cuts { shape: "dice".to_string() });
    assert_eq!(cut.clone(), cut);
    assert_eq!(Operations::Join.clone(), Operations::Join);
    let stew = Processes::Stew { until: 15_000 };
    assert_eq!(stew.clone(), stew);
    assert_ne!(stew, Processes::Stew { until: 15_001 });
}

#[test]
fn structures_of_equal_recipes_are_equal() {
    let one = Amount::Gram(1).of("a".to_string()).cuts("dice").joins(Amount::Pinch.of("b".to_string()));
    let two = Amount::Gram(1).of("a".to_string()).cuts("dice").joins(Amount::Pinch.of("b".to_string()));
    assert_eq!(parse(&one).unwrap(), parse(&two).unwrap());
    let other = Amount::Gram(2).of("a".to_string()).cuts("dice").joins(Amount::Pinch.of("b".to_string()));
    assert_ne!(parse(&one).unwrap(), parse(&other).unwrap());
}
