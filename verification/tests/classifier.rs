use tg_drift::classifier::{checked_plan_changes, line_changes, parse_plan_changes};
use tg_drift::text::chars_of;

#[test]
fn no_changes_marker_gives_zero() {
    assert_eq!(parse_plan_changes("No changes. Infrastructure is up-to-date."), 0);
}

#[test]
fn no_changes_marker_outweighs_a_summary_line() {
    let output = "Plan: 5 to add, 1 to change, 0 to destroy.\nNo changes. Infrastructure is up-to-date.\n";
    assert_eq!(parse_plan_changes(output), 0);
    assert_eq!(parse_plan_changes("Plan: 7 to add. No changes"), 0);
}

#[test]
fn summary_line_is_summed() {
    assert_eq!(parse_plan_changes("Plan: 2 to add, 0 to change, 1 to destroy."), 3);
}

#[test]
fn summary_line_is_found_among_other_lines() {
    let output = "Refreshing state...\n\nTerraform will perform the following actions:\n\nPlan: 12 to add, 30 to change, 4 to destroy.\n\nSaved the plan.\n";
    assert_eq!(parse_plan_changes(output), 46);
}

#[test]
fn no_marker_and_no_summary_gives_zero() {
    assert_eq!(parse_plan_changes(""), 0);
    assert_eq!(parse_plan_changes("Initializing...\nDone in 12 seconds\n"), 0);
    assert_eq!(parse_plan_changes("plan: 3 to add"), 0);
    assert_eq!(parse_plan_changes("no changes"), 0);
}

#[test]
fn first_summary_line_decides() {
    assert_eq!(parse_plan_changes("Plan: 1 to add\nPlan: 20 to add\n"), 1);
    assert_eq!(parse_plan_changes("Plan: none\nPlan: 20 to add\n"), 0);
}

#[test]
fn every_number_on_the_summary_line_counts() {
    assert_eq!(parse_plan_changes("took 9 s Plan: 1 to add in 2 modules"), 12);
    assert_eq!(parse_plan_changes("10 Plan:"), 10);
}

#[test]
fn tokens_that_are_no_numbers_count_nothing() {
    assert_eq!(parse_plan_changes("Plan: 2, 3; 4. x5 6x -7 1.5 0x10 1_000"), 0);
    assert_eq!(parse_plan_changes("Plan: 2 , 3"), 5);
}

#[test]
fn plus_sign_and_leading_zeros_are_read() {
    assert_eq!(parse_plan_changes("Plan: +5 007 +0"), 12);
    assert_eq!(parse_plan_changes("Plan: + ++1 +-1 1+"), 0);
}

#[test]
fn numbers_beyond_u32_count_nothing() {
    assert_eq!(parse_plan_changes("Plan: 4294967295"), 4294967295);
    assert_eq!(parse_plan_changes("Plan: 4294967296 1"), 1);
    assert_eq!(parse_plan_changes("Plan: 99999999999999999999999999 2"), 2);
    assert_eq!(parse_plan_changes("Plan: 000000000000000000000000003"), 3);
}

#[test]
fn carriage_returns_end_lines_only_before_line_feeds() {
    assert_eq!(parse_plan_changes("Plan: 1 to add\r\n2\r\n"), 1);
    assert_eq!(parse_plan_changes("Plan: 1 to add\r2\n3"), 3);
    assert_eq!(parse_plan_changes("4\rPlan: 1"), 5);
}

#[test]
fn all_kinds_of_whitespace_separate_tokens() {
    assert_eq!(parse_plan_changes("Plan:\t1\u{000B}2\u{000C}3\u{0085}4\u{00A0}5"), 15);
    assert_eq!(parse_plan_changes("Plan:\u{1680}1\u{2000}2\u{200A}3\u{2028}4\u{2029}5\u{202F}6\u{205F}7\u{3000}8"), 36);
    assert_eq!(parse_plan_changes("Plan: 1\u{200B}2 3\u{FEFF}4 5\u{180E}6"), 0);
}

#[test]
fn sum_beyond_u32_is_reported_by_the_checked_function() {
    assert_eq!(checked_plan_changes("Plan: 4294967295 1"), None);
    assert_eq!(checked_plan_changes("Plan: 4294967295 0"), Some(4294967295));
    assert_eq!(checked_plan_changes("Plan: 4294967295 1\nNo changes"), Some(0));
    assert_eq!(checked_plan_changes("Plan: 2147483648 2147483647 1 5"), None);
}

#[test]
fn checked_function_agrees_where_the_count_fits() {
    let outputs: Vec<&str> = vec![
        "",
        "No changes",
        "Plan: 2 to add, 0 to change, 1 to destroy.",
        "x\nPlan: 8\n",
    ];
    for output in outputs {
        assert_eq!(checked_plan_changes(output), Some(parse_plan_changes(output)));
    }
}

#[test]
fn line_changes_sums_one_line() {
    assert_eq!(line_changes(&chars_of("  3  4 five 6 ")), Some(13));
    assert_eq!(line_changes(&chars_of("")), Some(0));
    assert_eq!(line_changes(&chars_of("   ")), Some(0));
    assert_eq!(line_changes(&chars_of("4294967295 4294967295")), None);
}

/// The change count as the string functions of the standard library give it.
fn count_by_std(output: &str) -> Option<u32> {
    if output.contains("No changes") {
        return Some(0);
    }
    for line in output.lines() {
        if line.contains("Plan:") {
            let mut sum: u32 = 0;
            for token in line.split_whitespace() {
                if let Ok(number) = token.parse::<u32>() {
                    sum = sum.checked_add(number)?;
                }
            }
            return Some(sum);
        }
    }
    Some(0)
}

#[test]
fn classifier_agrees_with_the_standard_library() {
    let pieces: Vec<&str> = vec![
        "Plan:", "No changes", "1", "23", "+4", "-5", " ", "\n", "\r", "\t", "x", "4294967295",
        "\u{a0}", "Pla", "n:",
    ];
    let mut outputs: Vec<String> = vec![String::new()];
    let mut from: usize = 0;
    for _length in 0..4 {
        let upto: usize = outputs.len();
        for i in from..upto {
            for piece in &pieces {
                let longer = format!("{}{}", outputs[i], piece);
                outputs.push(longer);
            }
        }
        from = upto;
    }
    assert_eq!(outputs.len(), 1 + 15 + 225 + 3375 + 50625);
    for output in &outputs {
        assert_eq!(checked_plan_changes(output), count_by_std(output), "{:?}", output);
    }
}

#[test]
fn classifier_agrees_with_the_standard_library_on_plan_output() {
    let outputs: Vec<&str> = vec![
        "Plan: 2 to add, 0 to change, 1 to destroy.",
        "\u{1b}[1mPlan:\u{1b}[0m 3 to add, 0 to change, 0 to destroy.\n",
        "  # aws_s3_bucket.this will be created\n\nPlan: 1 to add, 0 to change, 0 to destroy.\n\nChanges to Outputs:\n  + id = 7\n",
        "No changes. Your infrastructure matches the configuration.\n",
        "Error: Plan: failed after 3 retries\r\nPlan: 9 to add\r\n",
        "Plan:\n5 to add\n",
        "\n\n\nPlan: 4\n",
        "a\r\n\r\nPlan: 1 2 3\r",
    ];
    for output in outputs {
        assert_eq!(checked_plan_changes(output), count_by_std(output), "{:?}", output);
    }
}
