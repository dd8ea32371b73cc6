use pake_shell::naming::unused_file_name;

fn names(list: &[&str]) -> Vec<String> {
    list.iter().map(|s| s.to_string()).collect()
}

#[test]
fn free_name_is_kept() {
    assert_eq!(unused_file_name("report.pdf", &names(&[])), "report.pdf");
    assert_eq!(unused_file_name("report.pdf", &names(&["other.pdf"])), "report.pdf");
}

#[test]
fn taken_name_gets_a_number() {
    assert_eq!(unused_file_name("report.pdf", &names(&["report.pdf"])), "report (1).pdf");
}

#[test]
fn numbers_increase_past_taken_ones() {
    let taken = names(&["report.pdf", "report (1).pdf", "report (2).pdf"]);
    let chosen = unused_file_name("report.pdf", &taken);
    assert_eq!(chosen, "report (3).pdf");
    assert!(!taken.contains(&chosen));
}

#[test]
fn numbers_reach_two_digits() {
    let mut taken = names(&["a.txt"]);
    for k in 1..10 {
        taken.push(format!("a ({}).txt", k));
    }
    assert_eq!(unused_file_name("a.txt", &taken), "a (10).txt");
}

#[test]
fn name_without_extension() {
    assert_eq!(unused_file_name("README", &names(&["README"])), "README (1)");
}

#[test]
fn hidden_file_keeps_its_dot() {
    assert_eq!(unused_file_name(".bashrc", &names(&[".bashrc"])), ".bashrc (1)");
}

#[test]
fn only_last_extension_is_split() {
    assert_eq!(unused_file_name("a.tar.gz", &names(&["a.tar.gz"])), "a.tar (1).gz");
}

#[test]
fn non_ascii_name() {
    assert_eq!(unused_file_name("图片.png", &names(&["图片.png"])), "图片 (1).png");
}

#[test]
fn empty_name() {
    assert_eq!(unused_file_name("", &names(&[""])), " (1)");
}
