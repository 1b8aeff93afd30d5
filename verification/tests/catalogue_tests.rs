use research_tracker::catalogue::{
    load_catalogue, locate_columns, parse_amount, parse_id, parse_records, parse_row, Columns,
    RowError,
};
use research_tracker::research_item::{Amount, ResearchItem};

fn item(id: i32, url: &str, name: &str, amount: Amount) -> ResearchItem {
    ResearchItem { id, url: String::from(url), name: String::from(name), amount }
}

fn cells(texts: &[&str]) -> Option<Vec<String>> {
    Some(texts.iter().map(|text| String::from(*text)).collect())
}

#[test]
fn a_table_gives_its_rows_in_order() {
    let rows = load_catalogue(b"id,url,name,amount\n1,u1,Iron Pickaxe,1\n9,u9,Wood,100\n");
    assert_eq!(
        rows,
        vec![
            Ok(item(1, "u1", "Iron Pickaxe", Amount::Number(1))),
            Ok(item(9, "u9", "Wood", Amount::Number(100))),
        ]
    );
}

#[test]
fn an_empty_table_gives_no_rows() {
    assert_eq!(load_catalogue(b""), vec![]);
    assert_eq!(load_catalogue(b"id,url,name,amount\n"), vec![]);
    assert_eq!(load_catalogue(b"id,url,name,amount"), vec![]);
}

#[test]
fn quoted_cells_are_read_by_the_rules_of_the_format() {
    let rows = load_catalogue(
        b"id,url,name,amount\n5,\" https://x/a,b \",\"Mushroom, \"\"red\"\"\",25\r\n",
    );
    assert_eq!(
        rows,
        vec![Ok(item(5, " https://x/a,b ", "Mushroom, \"red\"", Amount::Number(25)))]
    );
}

#[test]
fn a_remark_in_place_of_an_amount_is_kept_as_it_stands() {
    let rows = load_catalogue(b"id,url,name,amount\n1,u,A,varies\n2,u,B,\n3,u,C,N/A\n4,u,D, 5\n");
    assert_eq!(
        rows,
        vec![
            Ok(item(1, "u", "A", Amount::Other(String::from("varies")))),
            Ok(item(2, "u", "B", Amount::Other(String::new()))),
            Ok(item(3, "u", "C", Amount::Other(String::from("N/A")))),
            Ok(item(4, "u", "D", Amount::Other(String::from(" 5")))),
        ]
    );
}

#[test]
fn a_malformed_row_stands_as_an_error_between_its_neighbours() {
    let rows = load_catalogue(b"id,url,name,amount\n1,u,A,5\nnot-a-number,u,X,1\n2,u,B,3\n");
    assert_eq!(
        rows,
        vec![
            Ok(item(1, "u", "A", Amount::Number(5))),
            Err(RowError::Id),
            Ok(item(2, "u", "B", Amount::Number(3))),
        ]
    );
}

#[test]
fn a_row_with_too_few_or_too_many_cells_is_unreadable() {
    let rows = load_catalogue(b"id,url,name,amount\n1,u,A\n2,u,B,3,extra\n3,u,C,4\n");
    assert_eq!(
        rows,
        vec![
            Err(RowError::Unreadable),
            Err(RowError::Unreadable),
            Ok(item(3, "u", "C", Amount::Number(4))),
        ]
    );
}

#[test]
fn a_row_that_is_no_text_is_unreadable() {
    let rows = load_catalogue(b"id,url,name,amount\n1,u,\xff\xfe,5\n2,u,B,3\n");
    assert_eq!(rows, vec![Err(RowError::Unreadable), Ok(item(2, "u", "B", Amount::Number(3)))]);
}

#[test]
fn an_amount_that_reads_as_another_kind_of_value_is_refused() {
    let rows = load_catalogue(
        b"id,url,name,amount\n1,u,A,1.5\n2,u,B,true\n3,u,C,false\n4,u,D,99999999999\n5,u,E,1e3\n6,u,F,inf\n7,u,G,-2147483649\n8,u,H,NaN\n",
    );
    assert_eq!(rows, vec![Err(RowError::Amount); 8]);
}

#[test]
fn an_amount_may_carry_a_sign() {
    let rows = load_catalogue(b"id,url,name,amount\n1,u,A,+5\n2,u,B,-5\n3,u,C,-0\n4,u,D,True\n");
    assert_eq!(
        rows,
        vec![
            Ok(item(1, "u", "A", Amount::Number(5))),
            Ok(item(2, "u", "B", Amount::Number(-5))),
            Ok(item(3, "u", "C", Amount::Number(0))),
            Ok(item(4, "u", "D", Amount::Other(String::from("True")))),
        ]
    );
}

#[test]
fn an_item_number_may_be_hexadecimal() {
    let rows = load_catalogue(b"id,url,name,amount\n0x10,u,A,1\n0x,u,B,1\n-0x10,u,C,1\n0X10,u,D,1\n");
    assert_eq!(
        rows,
        vec![
            Ok(item(16, "u", "A", Amount::Number(1))),
            Err(RowError::Id),
            Err(RowError::Id),
            Err(RowError::Id),
        ]
    );
}

#[test]
fn columns_are_found_by_their_names() {
    let rows = load_catalogue(b"name,note,amount,id,url\nWood,x,100,9,u9\n");
    assert_eq!(rows, vec![Ok(item(9, "u9", "Wood", Amount::Number(100)))]);
}

#[test]
fn a_header_that_lacks_a_column_spoils_every_row() {
    let rows = load_catalogue(b"id,url,name\n1,u,A\n2,u,B\n");
    assert_eq!(rows, vec![Err(RowError::Header), Err(RowError::Header)]);
    let rows = load_catalogue(b"ID,url,name,amount\n1,u,A,1\n");
    assert_eq!(rows, vec![Err(RowError::Header)]);
}

#[test]
fn a_header_that_names_a_column_twice_spoils_every_row() {
    let rows = load_catalogue(b"id,url,name,amount,id\n1,u,A,1,1\n");
    assert_eq!(rows, vec![Err(RowError::Header)]);
}

#[test]
fn under_a_header_that_is_no_text_the_cells_are_taken_in_order() {
    let rows = load_catalogue(b"\xff,b,c,d,e\n1,u,A,5,more\n");
    assert_eq!(rows, vec![Ok(item(1, "u", "A", Amount::Number(5)))]);
    let rows = load_catalogue(b"\xff,b,c\n1,u,A\n");
    assert_eq!(rows, vec![Err(RowError::Short)]);
}

#[test]
fn the_places_of_the_columns() {
    assert_eq!(
        locate_columns(&cells(&["id", "url", "name", "amount"])),
        Some(Columns { id: 0, url: 1, name: 2, amount: 3 })
    );
    assert_eq!(
        locate_columns(&cells(&["amount", "x", "name", "url", "y", "id"])),
        Some(Columns { id: 5, url: 3, name: 2, amount: 0 })
    );
    assert_eq!(locate_columns(&None), Some(Columns { id: 0, url: 1, name: 2, amount: 3 }));
    assert_eq!(locate_columns(&cells(&["id", "url", "name"])), None);
    assert_eq!(locate_columns(&cells(&["id", "url", "name", "amount", "url"])), None);
    assert_eq!(locate_columns(&cells(&[])), None);
    assert_eq!(locate_columns(&cells(&["id ", "url", "name", "amount"])), None);
}

#[test]
fn item_numbers_in_cells() {
    assert_eq!(parse_id("9"), Some(9));
    assert_eq!(parse_id("-1"), Some(-1));
    assert_eq!(parse_id("+9"), Some(9));
    assert_eq!(parse_id("0x1f"), Some(31));
    assert_eq!(parse_id("0x-1F"), Some(-31));
    assert_eq!(parse_id("0"), Some(0));
    assert_eq!(parse_id("0x"), None);
    assert_eq!(parse_id(""), None);
    assert_eq!(parse_id("9.0"), None);
    assert_eq!(parse_id(" 9"), None);
    assert_eq!(parse_id("2147483648"), None);
}

#[test]
fn amounts_in_cells() {
    assert_eq!(parse_amount("5"), Some(Amount::Number(5)));
    assert_eq!(parse_amount("0"), Some(Amount::Number(0)));
    assert_eq!(parse_amount("-5"), Some(Amount::Number(-5)));
    assert_eq!(parse_amount("varies"), Some(Amount::Other(String::from("varies"))));
    assert_eq!(parse_amount(""), Some(Amount::Other(String::new())));
    assert_eq!(parse_amount("0x10"), Some(Amount::Other(String::from("0x10"))));
    assert_eq!(parse_amount("5 "), Some(Amount::Other(String::from("5 "))));
    assert_eq!(parse_amount("1.5"), None);
    assert_eq!(parse_amount("true"), None);
    assert_eq!(parse_amount("false"), None);
    assert_eq!(parse_amount("2147483648"), None);
    assert_eq!(parse_amount("infinity"), None);
}

#[test]
fn one_record_as_a_row() {
    let at = Some(Columns { id: 0, url: 1, name: 2, amount: 3 });
    assert_eq!(
        parse_row(&at, &cells(&["9", "u", "Wood", "100"])),
        Ok(item(9, "u", "Wood", Amount::Number(100)))
    );
    assert_eq!(parse_row(&at, &None), Err(RowError::Unreadable));
    assert_eq!(parse_row(&None, &cells(&["9", "u", "Wood", "100"])), Err(RowError::Header));
    assert_eq!(parse_row(&None, &None), Err(RowError::Unreadable));
    assert_eq!(parse_row(&at, &cells(&["9", "u", "Wood"])), Err(RowError::Short));
    assert_eq!(parse_row(&at, &cells(&["x", "u", "Wood", "1.5"])), Err(RowError::Id));
    assert_eq!(parse_row(&at, &cells(&["9", "u", "Wood", "1.5"])), Err(RowError::Amount));
}

#[test]
fn records_as_a_catalogue() {
    let records =
        vec![cells(&["id", "url", "name", "amount"]), None, cells(&["2", "u", "B", "varies"])];
    assert_eq!(
        parse_records(&records),
        vec![Err(RowError::Unreadable), Ok(item(2, "u", "B", Amount::Other(String::from("varies"))))]
    );
    assert_eq!(parse_records(&vec![]), vec![]);
    assert_eq!(parse_records(&vec![None]), vec![]);
}
