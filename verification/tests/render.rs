//! End-to-end rendering: literal templates against small environments.

use amps::amps::Amps;
use amps::context::EnvType;

fn render_with(template: &str, env: Vec<(String, EnvType)>) -> (String, Vec<String>) {
    let mut engine = Amps::new();
    engine.load_template(String::from(template));
    let out = engine.render(env);
    (out, engine.get_errors().clone())
}

fn render_plain(template: &str) -> (String, Vec<String>) {
    render_with(template, Vec::new())
}

#[test]
fn plain_text_is_echoed_verbatim() {
    let (out, errs) = render_plain("Hello, world!");
    assert_eq!(out, "Hello, world!");
    assert!(errs.is_empty());
}

#[test]
fn empty_template_renders_empty() {
    let (out, errs) = render_plain("");
    assert_eq!(out, "");
    assert!(errs.is_empty());
}

#[test]
fn multiplication_binds_tighter_than_addition() {
    let (out, errs) = render_plain("{= 1 + 2 * 3 =}");
    assert_eq!(out, "7");
    assert!(errs.is_empty());
}

#[test]
fn if_else_takes_the_true_arm() {
    let (out, _) = render_plain("{% if 1 lt 2 %}yes{% else %}no{% endif %}");
    assert_eq!(out, "yes");
}

#[test]
fn elif_takes_the_first_true_arm() {
    let (out, _) = render_plain("{% if 5 eq 6 %}a{% elif 5 eq 5 %}b{% else %}c{% endif %}");
    assert_eq!(out, "b");
}

#[test]
fn plus_concatenates_strings() {
    let (out, errs) = render_plain("{= \"foo\" + \"bar\" =}");
    assert_eq!(out, "foobar");
    assert!(errs.is_empty());
}

#[test]
fn division_by_zero_is_a_diagnostic() {
    let (out, errs) = render_plain("{= 10 / 0 =}");
    assert_eq!(out, "");
    assert!(errs.iter().any(|e| e.contains("10 / 0 division by 0")));
}

#[test]
fn scalar_text_variable_is_substituted() {
    let env = vec![(String::from("name"), EnvType::Text(String::from("Ada")))];
    let (out, errs) = render_with("Hi {= name =}!", env);
    assert_eq!(out, "Hi Ada!");
    assert!(errs.is_empty());
}

#[test]
fn text_map_is_indexed_by_string_key() {
    let env = vec![(
        String::from("m"),
        EnvType::TextMap(vec![(String::from("k"), String::from("v"))]),
    )];
    let (out, errs) = render_with("{= m[\"k\"] =}", env);
    assert_eq!(out, "v");
    assert!(errs.is_empty());
}

fn abc_vector() -> Vec<(String, EnvType)> {
    vec![(
        String::from("v"),
        EnvType::TextVector(vec![
            String::from("a"),
            String::from("b"),
            String::from("c"),
        ]),
    )]
}

#[test]
fn vector_indexing_round_trips() {
    let (out0, errs0) = render_with("{= v[0] =}", abc_vector());
    assert_eq!(out0, "a");
    assert!(errs0.is_empty());
    let (out1, errs1) = render_with("{= v[1] =}", abc_vector());
    assert_eq!(out1, "b");
    assert!(errs1.is_empty());
    let (out2, errs2) = render_with("{= v[2] =}", abc_vector());
    assert_eq!(out2, "c");
    assert!(errs2.is_empty());
}

#[test]
fn vector_index_out_of_bounds_is_a_diagnostic() {
    let (out, errs) = render_with("{= v[3] =}", abc_vector());
    assert_eq!(out, "");
    assert!(!errs.is_empty());
}

#[test]
fn number_vector_and_number_map_are_indexed() {
    let env = vec![(String::from("n"), EnvType::NumberVector(vec![10, 20]))];
    let (out, _) = render_with("{= n[1] =}", env);
    assert_eq!(out, "20");
    let env = vec![(
        String::from("nm"),
        EnvType::NumberMap(vec![(String::from("k"), 42)]),
    )];
    let (out, _) = render_with("{= nm[\"k\"] =}", env);
    assert_eq!(out, "42");
}

#[test]
fn missing_map_key_is_a_diagnostic() {
    let env = vec![(
        String::from("m"),
        EnvType::TextMap(vec![(String::from("k"), String::from("v"))]),
    )];
    let (out, errs) = render_with("{= m[\"x\"] =}", env);
    assert_eq!(out, "");
    assert!(!errs.is_empty());
}

#[test]
fn unknown_identifier_is_a_diagnostic() {
    let (out, errs) = render_plain("{= nobody =}");
    assert_eq!(out, "");
    assert!(errs.iter().any(|e| e.contains("invalid identifier nobody")));
}

#[test]
fn overflow_is_a_diagnostic() {
    let (out, errs) = render_plain("{= 9223372036854775807 + 1 =}");
    assert_eq!(out, "");
    assert!(errs.iter().any(|e| e.contains("overflows")));
}

#[test]
fn underflow_is_a_diagnostic() {
    let (out, errs) = render_plain("{% print 0 - 9223372036854775807 - 9223372036854775807 %}");
    assert_eq!(out, "");
    assert!(errs.iter().any(|e| e.contains("underflows")));
}

#[test]
fn remainder_follows_truncated_division() {
    let (out, errs) = render_plain("{= 17 % 5 =}");
    assert_eq!(out, "2");
    assert!(errs.is_empty());
}

#[test]
fn unary_minus_chains_apply_right_to_left() {
    let (out, errs) = render_plain("{= - - 3 =}");
    assert_eq!(out, "3");
    assert!(errs.is_empty());
}

#[test]
fn not_negates_booleans() {
    let (out, _) = render_plain("{% if not false %}x{% endif %}");
    assert_eq!(out, "x");
}

#[test]
fn booleans_print_as_words() {
    let (out, _) = render_plain("{= 1 lt 2 =}");
    assert_eq!(out, "true");
    let (out, _) = render_plain("{= true =}");
    assert_eq!(out, "true");
    let (out, _) = render_plain("{= false =}");
    assert_eq!(out, "false");
}

#[test]
fn string_comparison_is_lexicographic() {
    let (out, _) = render_plain("{= \"abc\" lt \"abd\" =}");
    assert_eq!(out, "true");
    let (out, _) = render_plain("{= \"ab\" lt \"abc\" =}");
    assert_eq!(out, "true");
    let (out, _) = render_plain("{= \"b\" le \"a\" =}");
    assert_eq!(out, "false");
}

#[test]
fn logical_operators_combine_booleans() {
    let (out, _) = render_plain("{% if 1 lt 2 and 3 lt 4 %}both{% endif %}");
    assert_eq!(out, "both");
    let (out, _) = render_plain("{% if 2 lt 1 or 3 lt 4 %}one{% endif %}");
    assert_eq!(out, "one");
}

#[test]
fn parentheses_group_subexpressions() {
    let (out, errs) = render_plain("{% print (1 + 2) * 3 %}");
    assert_eq!(out, "9");
    assert!(errs.is_empty());
}

#[test]
fn mixed_operand_types_are_a_diagnostic() {
    let (out, errs) = render_plain("{= 1 + \"a\" =}");
    assert_eq!(out, "");
    assert!(errs.iter().any(|e| e.contains("mismatch types")));
}

#[test]
fn nested_if_chains_suppress_inner_bodies() {
    let (out, _) =
        render_plain("{% if 1 lt 2 %}a{% if 2 lt 1 %}b{% endif %}c{% endif %}");
    assert_eq!(out, "ac");
}

#[test]
fn untaken_chain_produces_no_output() {
    let (out, _) = render_plain("{% if 1 eq 2 %}a{% elif 3 eq 4 %}b{% endif %}");
    assert_eq!(out, "");
}

#[test]
fn endif_without_opener_is_a_diagnostic() {
    let (out, errs) = render_plain("{% endif %}");
    assert_eq!(out, "");
    assert!(errs.iter().any(|e| e.contains("mismatch endif")));
}

#[test]
fn else_without_opener_is_a_diagnostic() {
    let (_, errs) = render_plain("{% else %}");
    assert!(errs.iter().any(|e| e.contains("mismatch else")));
}

#[test]
fn elif_without_opener_is_a_diagnostic() {
    let (_, errs) = render_plain("{% elif 1 eq 1 %}");
    assert!(errs.iter().any(|e| e.contains("mismatch elif")));
}

#[test]
fn non_boolean_guard_is_a_diagnostic() {
    let (out, errs) = render_plain("{% if 1 %}a{% endif %}");
    assert_eq!(out, "");
    assert!(errs
        .iter()
        .any(|e| e.contains("if expression must evaluate to boolean")));
}

#[test]
fn complex_variable_without_index_is_a_diagnostic() {
    let env = vec![(
        String::from("vv"),
        EnvType::TextVector(vec![String::from("a")]),
    )];
    let (out, errs) = render_with("{= vv =}", env);
    assert_eq!(out, "");
    assert!(errs
        .iter()
        .any(|e| e.contains("complex variable, must be parsed")));
}

#[test]
fn suppressed_print_still_surfaces_diagnostics() {
    let (out, errs) = render_plain("{% if 1 eq 2 %}{= 1 / 0 =}{% endif %}");
    assert_eq!(out, "");
    assert!(errs.iter().any(|e| e.contains("division by 0")));
}

#[test]
fn print_statement_form_matches_echo_form() {
    let (out, errs) = render_plain("{% print 2 * 21 %}");
    assert_eq!(out, "42");
    assert!(errs.is_empty());
}

#[test]
fn text_around_directives_is_kept_in_order() {
    let (out, errs) = render_plain("a{= 11 =}b{= 22 =}c");
    assert_eq!(out, "a11b22c");
    assert!(errs.is_empty());
}

#[test]
fn malformed_directive_is_literal_text() {
    let (out, errs) = render_plain("{%if x%}");
    assert_eq!(out, "{%if x%}");
    assert!(errs.is_empty());
}

#[test]
fn render_without_template_is_a_diagnostic() {
    let mut engine = Amps::new();
    let out = engine.render(Vec::new());
    assert_eq!(out, "");
    assert!(engine
        .get_errors()
        .iter()
        .any(|e| e.contains("no template available")));
}

#[test]
fn loaded_template_is_returned_by_the_getter() {
    let mut engine = Amps::new();
    engine.load_template(String::from("abc"));
    assert_eq!(engine.get_template().as_deref(), Some("abc"));
}

#[test]
fn first_binding_of_a_name_wins() {
    let env = vec![
        (String::from("xx"), EnvType::Number(1)),
        (String::from("xx"), EnvType::Number(2)),
    ];
    let (out, _) = render_with("{= xx =}", env);
    assert_eq!(out, "1");
}

#[test]
fn negative_numbers_print_with_sign() {
    let (out, errs) = render_plain("{= 0 - 5 =}");
    assert_eq!(out, "-5");
    assert!(errs.is_empty());
}

#[test]
fn leading_zeros_read_as_the_same_number() {
    let (out, errs) = render_plain("{= 007 =}");
    assert_eq!(out, "7");
    assert!(errs.is_empty());
}

#[test]
fn oversized_number_literal_is_a_diagnostic() {
    let (out, errs) = render_plain("{= 9223372036854775808 =}");
    assert_eq!(out, "");
    assert!(errs.iter().any(|e| e.contains("impossible converting")));
}

#[test]
fn taken_arm_suppresses_all_later_arms() {
    let (out, _) = render_plain("{% if 1 eq 1 %}a{% elif 1 eq 1 %}b{% endif %}");
    assert_eq!(out, "a");
}

#[test]
fn line_breaks_are_not_re_emitted() {
    let (out, errs) = render_plain("a\nb");
    assert_eq!(out, "ab");
    assert!(errs.is_empty());
}

#[test]
fn number_map_missing_key_is_a_diagnostic() {
    let env = vec![(
        String::from("nm"),
        EnvType::NumberMap(vec![(String::from("k"), 1)]),
    )];
    let (out, errs) = render_with("{= nm[\"z\"] =}", env);
    assert_eq!(out, "");
    assert!(!errs.is_empty());
}

#[test]
fn string_equality_and_inequality() {
    let (out, _) = render_plain("{= \"ab\" eq \"ab\" =}");
    assert_eq!(out, "true");
    let (out, _) = render_plain("{= \"ab\" ne \"ab\" =}");
    assert_eq!(out, "false");
}

#[test]
fn print_without_expression_emits_nothing() {
    let (out, errs) = render_plain("{% print %}");
    assert_eq!(out, "");
    assert!(errs.is_empty());
}

#[test]
fn unterminated_string_runs_to_the_end_of_the_directive() {
    let (out, _) = render_plain("{= \"abc =}");
    assert_eq!(out, "abc");
}

#[test]
fn leftover_tokens_after_an_expression_are_ignored() {
    let (out, _) = render_plain("{% print 1 2 %}");
    assert_eq!(out, "1");
}
