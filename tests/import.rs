use vault_core::csv_import::{default_category, import_csv, import_rows, row_to_record, MAX_IMPORT_ROWS};
use vault_core::csv_path::{validate_csv_path, CsvPathError, PathKind};
use vault_core::records::PasswordRecord;
use vault_core::text::sanitize_string;

fn record(id: u32, website: &str, username: &str) -> PasswordRecord {
    PasswordRecord {
        id,
        website: website.to_string(),
        username: username.to_string(),
        password: "pw".to_string(),
        category: "General".to_string(),
        favorite: false,
        notes: String::new(),
    }
}

fn strings(v: &[&str]) -> Vec<String> {
    v.iter().map(|s| s.to_string()).collect()
}

const HEADER: &str = "name,username,password,category,favorite,note\n";

#[test]
fn two_rows_into_empty_vault_get_ids_one_and_two() {
    let data = format!("{HEADER}a.com,u1,p1,,false,\na.com,u2,p2,,false,\n");
    let out = import_csv(&Vec::new(), data.as_bytes());
    assert_eq!(out.len(), 2);
    assert_eq!(out[0].id, 1);
    assert_eq!(out[1].id, 2);
    assert_eq!(out[0].username, "u1");
    assert_eq!(out[1].password, "p2");
    let again = format!("{HEADER}a.com,u1,other,,false,\n");
    assert!(import_csv(&out, again.as_bytes()).is_empty());
}

#[test]
fn duplicates_are_found_without_regard_to_case() {
    let existing = vec![record(1, "Example.COM", "Alice")];
    let data = format!("{HEADER}example.com,ALICE,x,,false,\nexample.com,bob,y,,false,\nEXAMPLE.com,Bob,z,,false,\n");
    let out = import_csv(&existing, data.as_bytes());
    assert_eq!(out.len(), 1);
    assert_eq!(out[0].username, "bob");
    assert_eq!(out[0].id, 2);
}

#[test]
fn ids_fill_the_smallest_gaps() {
    let existing = vec![record(1, "a", "a"), record(3, "b", "b"), record(5, "c", "c")];
    let data = format!("{HEADER}x,1,p,,false,\ny,2,p,,false,\nz,3,p,,false,\n");
    let out = import_csv(&existing, data.as_bytes());
    let ids: Vec<u32> = out.iter().map(|r| r.id).collect();
    assert_eq!(ids, vec![2, 4, 6]);
}

#[test]
fn rows_with_empty_website_or_username_are_skipped() {
    let data = format!("{HEADER},u,p,,false,\nsite,,p,,false,\nsite,\0,p,,false,\nsite,u,p,,false,\n");
    let out = import_csv(&Vec::new(), data.as_bytes());
    assert_eq!(out.len(), 1);
    assert_eq!(out[0].id, 1);
}

#[test]
fn malformed_rows_are_skipped_and_the_rest_kept() {
    let data = format!("{HEADER}a,u,p,,maybe,\nb,u,p,,true,n\nc,u,p\nd,u,p,Work,false,note\n");
    let out = import_csv(&Vec::new(), data.as_bytes());
    assert_eq!(out.len(), 2);
    assert_eq!(out[0].website, "b");
    assert!(out[0].favorite);
    assert_eq!(out[0].notes, "n");
    assert_eq!(out[1].website, "d");
    assert_eq!(out[1].category, "Work");
    assert!(!out[1].favorite);
}

#[test]
fn optional_columns_take_their_defaults() {
    let data = "note,password,username,name\nn1,p1,u1,w1\n";
    let out = import_csv(&Vec::new(), data.as_bytes());
    assert_eq!(out.len(), 1);
    assert_eq!(out[0].website, "w1");
    assert_eq!(out[0].username, "u1");
    assert_eq!(out[0].password, "p1");
    assert_eq!(out[0].notes, "n1");
    assert_eq!(out[0].category, "General");
    assert!(!out[0].favorite);
}

#[test]
fn the_three_required_columns_suffice() {
    let data = "name,username,password\na.com,u1,p1\na.com,u2,p2\n";
    let out = import_csv(&Vec::new(), data.as_bytes());
    assert_eq!(out.len(), 2);
    assert_eq!(out[0].id, 1);
    assert_eq!(out[0].website, "a.com");
    assert_eq!(out[0].username, "u1");
    assert_eq!(out[0].password, "p1");
    assert_eq!(out[0].notes, "");
    assert_eq!(out[0].category, "General");
    assert!(!out[0].favorite);
    assert_eq!(out[1].id, 2);
    assert_eq!(out[1].username, "u2");
    assert_eq!(out[1].password, "p2");
    let again = "name,username,password\na.com,u1,p9\n";
    assert!(import_csv(&out, again.as_bytes()).is_empty());
}

#[test]
fn a_missing_required_column_rejects_every_row() {
    let data = "username,password,note\nu,p,n\n";
    assert!(import_csv(&Vec::new(), data.as_bytes()).is_empty());
    assert!(import_csv(&Vec::new(), b"").is_empty());
}

#[test]
fn an_empty_favorite_reads_as_false() {
    let data = "name,username,password,favorite\nw,u,p,\nw2,u,p,true\n";
    let out = import_csv(&Vec::new(), data.as_bytes());
    assert_eq!(out.len(), 2);
    assert!(!out[0].favorite);
    assert!(out[1].favorite);
}

#[test]
fn fields_are_sanitized_on_import() {
    let long_user = "u".repeat(2000);
    let data = format!("{HEADER}site,{long_user},pa\0ss,,false,\n");
    let out = import_csv(&Vec::new(), data.as_bytes());
    assert_eq!(out.len(), 1);
    assert_eq!(out[0].password, "pass");
    assert_eq!(out[0].username.chars().count(), 1000);
}

#[test]
fn import_stops_after_the_row_cap() {
    let mut data = String::from(HEADER);
    for i in 0..15000 {
        data.push_str(&format!("site{i}.com,user{i},pw{i},,false,\n"));
    }
    let out = import_csv(&Vec::new(), data.as_bytes());
    assert_eq!(out.len(), 10000);
    assert_eq!(out.len(), MAX_IMPORT_ROWS);
    assert_eq!(out[9999].id, 10000);
    assert_eq!(out[9999].website, "site9999.com");
}

#[test]
fn the_row_cap_counts_rejected_rows_too() {
    let mut data = String::from(HEADER);
    for _ in 0..10000 {
        data.push_str("dup.com,same,pw,,false,\n");
    }
    data.push_str("late.com,user,pw,,false,\n");
    let out = import_csv(&Vec::new(), data.as_bytes());
    assert_eq!(out.len(), 1);
    assert_eq!(out[0].website, "dup.com");
}

#[test]
fn sanitize_strips_nul_and_truncates() {
    assert_eq!(sanitize_string("pa\0ss"), "pass");
    let long = "é".repeat(2000);
    let s = sanitize_string(&long);
    assert_eq!(s.chars().count(), 1000);
    assert_eq!(sanitize_string(""), "");
    assert_eq!(sanitize_string("\0\0"), "");
    let exact = "x".repeat(1000);
    assert_eq!(sanitize_string(&exact), exact);
}

#[test]
fn default_category_is_general() {
    assert_eq!(default_category(), "General");
}

#[test]
fn row_to_record_maps_columns_by_name() {
    let header = strings(&["favorite", "note", "name", "extra", "username", "password", "category"]);
    let row = strings(&["true", "n", "w", "ignored", "u", "p", ""]);
    let rec = row_to_record(&header, &row).unwrap();
    assert_eq!(rec.website, "w");
    assert_eq!(rec.username, "u");
    assert_eq!(rec.password, "p");
    assert_eq!(rec.category, "General");
    assert!(rec.favorite);
    assert_eq!(rec.notes, "n");
    let bad = strings(&["yes", "n", "w", "x", "u", "p", "c"]);
    assert!(row_to_record(&header, &bad).is_none());
}

#[test]
fn paths_without_csv_extension_are_refused() {
    assert_eq!(validate_csv_path("../../etc/passwd", PathKind::File), Err(CsvPathError::WrongExtension));
    assert_eq!(validate_csv_path("readme.txt", PathKind::File), Err(CsvPathError::WrongExtension));
    assert_eq!(validate_csv_path("../../etc/passwd", PathKind::Missing), Err(CsvPathError::NotFound));
    assert_eq!(validate_csv_path("export.csv", PathKind::NotFile), Err(CsvPathError::NotAFile));
    assert_eq!(validate_csv_path(".csv", PathKind::File), Err(CsvPathError::WrongExtension));
}

#[test]
fn csv_extension_is_accepted_in_any_case() {
    assert_eq!(validate_csv_path("export.csv", PathKind::File), Ok(()));
    assert_eq!(validate_csv_path("/tmp/Export.CsV", PathKind::File), Ok(()));
}

#[test]
fn import_rows_works_on_a_given_table() {
    let table = vec![
        Some(strings(&["name", "username", "password"])),
        Some(strings(&["a.com", "u1", "p1"])),
        None,
        Some(strings(&["A.COM", "U1", "dup"])),
        Some(strings(&["b.com", "u1", "p2"])),
    ];
    let existing = vec![record(1, "z", "z")];
    let out = import_rows(&existing, &table);
    assert_eq!(out.len(), 2);
    assert_eq!(out[0].id, 2);
    assert_eq!(out[0].website, "a.com");
    assert_eq!(out[1].id, 3);
    assert_eq!(out[1].website, "b.com");
    assert!(import_rows(&existing, &vec![None, Some(strings(&["a", "b", "c"]))]).is_empty());
    assert!(import_rows(&existing, &Vec::new()).is_empty());
}
