use sheets_orm::cell_id::{A1CellId, SheetA1CellId};
use sheets_orm::entity::{Entity, EntityEssentials};
use sheets_orm::repository::{
    convert_into_range, delete_entity, insert_request, inserted_entity, update_request,
    AppendValuesResponse, DataFilter, MatchedValueRange, RepositoryError, UpdateValuesResponse,
    ValueRange,
};
use sheets_orm::sheet_row::{
    deserialize_rows, deserialize_rows_ignoring_errors, parse_cell, parse_optional_cell, ParseError,
    SheetRow, SheetRowSerde, SheetValue,
};

#[derive(Debug, Clone, PartialEq)]
struct User {
    id: i32,
    name: String,
}

impl SheetRowSerde for User {
    fn row_decodable(row: SheetRow) -> bool {
        <Self as SheetRowSerde>::deserialize(row).is_ok()
    }

    fn row_decodes(row: SheetRow, v: Self) -> bool {
        <Self as SheetRowSerde>::deserialize(row) == Ok(v)
    }

    fn row_encodable(v: Self) -> bool {
        SheetRowSerde::serialize(&v).is_ok()
    }

    fn row_encodes(v: Self, row: SheetRow) -> bool {
        SheetRowSerde::serialize(&v) == Ok(row)
    }

    fn deserialize(row: SheetRow) -> Result<Self, ParseError> {
        Ok(Self { id: parse_cell(&row, 0, "id")?, name: parse_cell(&row, 1, "name")? })
    }

    fn serialize(&self) -> Result<SheetRow, ParseError> {
        Ok(vec![SheetValue::Text(self.id.to_string()), SheetValue::Text(self.name.clone())])
    }
}

impl EntityEssentials for User {
    fn width() -> u32 {
        2
    }

    fn entity_width() -> u32 {
        2
    }
}

#[derive(Debug, Clone, PartialEq)]
struct Contact {
    id: i32,
    email: Option<String>,
}

impl SheetRowSerde for Contact {
    fn row_decodable(row: SheetRow) -> bool {
        <Self as SheetRowSerde>::deserialize(row).is_ok()
    }

    fn row_decodes(row: SheetRow, v: Self) -> bool {
        <Self as SheetRowSerde>::deserialize(row) == Ok(v)
    }

    fn row_encodable(v: Self) -> bool {
        SheetRowSerde::serialize(&v).is_ok()
    }

    fn row_encodes(v: Self, row: SheetRow) -> bool {
        SheetRowSerde::serialize(&v) == Ok(row)
    }

    fn deserialize(row: SheetRow) -> Result<Self, ParseError> {
        Ok(Self { id: parse_cell(&row, 0, "id")?, email: parse_optional_cell(&row, 1) })
    }

    fn serialize(&self) -> Result<SheetRow, ParseError> {
        Ok(vec![SheetValue::Text(self.id.to_string())])
    }
}

fn text(t: &str) -> SheetValue {
    SheetValue::Text(t.to_string())
}

fn answer(filters: Vec<Option<&str>>, rows: Option<Vec<SheetRow>>) -> MatchedValueRange {
    MatchedValueRange {
        data_filters: Some(
            filters.into_iter().map(|f| DataFilter { a1_range: f.map(|s| s.to_string()) }).collect(),
        ),
        value_range: Some(ValueRange { values: rows }),
    }
}

fn get_mocked_query_response() -> MatchedValueRange {
    answer(
        vec![Some("users!A1:B3")],
        Some(vec![
            vec![text("1"), text("Joe")],
            vec![text("2"), text("John")],
            vec![text("3"), text("Jane")],
        ]),
    )
}

#[test]
fn given_valid_mvr__when_parse__then_success() {
    let input = get_mocked_query_response();

    let result = input.parse_positionally::<User>();
    assert!(result.is_ok());

    let actual = result.expect("Test: Expected to parse MatchedValueRange");
    assert_eq!(actual.len(), 3);

    let expected = vec![
        (SheetA1CellId::from_primitives("users", "A", 1), User { id: 1, name: "Joe".to_string() }),
        (SheetA1CellId::from_primitives("users", "A", 2), User { id: 2, name: "John".to_string() }),
        (SheetA1CellId::from_primitives("users", "A", 3), User { id: 3, name: "Jane".to_string() }),
    ];
    let actual: Vec<(SheetA1CellId, User)> =
        actual.iter().map(|e| (e.position().clone(), e.data().clone())).collect();
    assert_eq!(actual, expected)
}

#[test]
fn positional_decode_follows_the_answer_anchor() {
    let input = answer(vec![Some("'Team List'!C5:D6")], Some(vec![vec![text("9"), text("Ann")]]));
    let actual = input.parse_positionally::<User>().unwrap();
    assert_eq!(actual.len(), 1);
    assert_eq!(actual[0].position().sheet_name, "Team List");
    assert_eq!(actual[0].position().cell, A1CellId::from_primitives("C", 5));
}

#[test]
fn positional_decode_errors() {
    let no_filter = MatchedValueRange { data_filters: None, value_range: None };
    assert!(matches!(
        no_filter.parse_positionally::<User>(),
        Err(RepositoryError::InvalidArgument(_))
    ));
    let two = answer(vec![Some("users!A1:B3"), Some("users!A1:B3")], Some(vec![]));
    assert!(matches!(two.extract_range_from_filters(), Err(RepositoryError::InvalidArgument(_))));
    let none = answer(vec![], Some(vec![]));
    assert!(matches!(none.extract_range_from_filters(), Err(RepositoryError::InvalidArgument(_))));
    let blank = answer(vec![None], Some(vec![]));
    assert!(matches!(blank.extract_range_from_filters(), Err(RepositoryError::InvalidArgument(_))));
    let bad = answer(vec![Some("users")], Some(vec![]));
    assert!(matches!(bad.extract_range_from_filters(), Err(RepositoryError::InvalidArgument(_))));
    let short = answer(vec![Some("users!A1:B3")], Some(vec![vec![text("1")]]));
    assert!(matches!(short.parse_positionally::<User>(), Err(RepositoryError::ParsingError)));
    let no_values = MatchedValueRange {
        data_filters: Some(vec![DataFilter { a1_range: Some("users!A1:B3".to_string()) }]),
        value_range: None,
    };
    assert!(matches!(
        no_values.parse_positionally::<User>(),
        Err(RepositoryError::InvalidArgument(_))
    ));
    let empty = answer(vec![Some("users!A1:B3")], None);
    assert_eq!(empty.parse_positionally::<User>().unwrap().len(), 0);
    let last_row = answer(
        vec![Some("users!A4294967295:B4294967295")],
        Some(vec![vec![text("1"), text("a")], vec![text("2"), text("b")]]),
    );
    assert!(matches!(
        last_row.parse_positionally::<User>(),
        Err(RepositoryError::InvalidArgument(_))
    ));
}

#[test]
fn optional_field_absent_in_short_row() {
    let input = answer(vec![Some("contacts!A1:B1")], Some(vec![vec![text("4")]]));
    let actual = input.parse_positionally::<Contact>().unwrap();
    assert_eq!(actual[0].data(), &Contact { id: 4, email: None });
}

#[test]
fn range_for_rows_of_a_record() {
    let start = SheetA1CellId::from_primitives("users", "A", 1);
    let range = convert_into_range(&start, 3, 2).unwrap();
    assert_eq!(range.to_string(), "'users'!A1:B3");
    let start = SheetA1CellId::from_primitives("users", "C", 4);
    assert_eq!(convert_into_range(&start, 1, 1).unwrap().to_string(), "'users'!C4:C4");
    assert!(matches!(convert_into_range(&start, 0, 2), Err(RepositoryError::InvalidArgument(_))));
    assert!(matches!(convert_into_range(&start, 2, 0), Err(RepositoryError::InvalidArgument(_))));
    let far = SheetA1CellId::from_primitives("users", "A", u32::MAX);
    assert!(matches!(convert_into_range(&far, 2, 1), Err(RepositoryError::InvalidArgument(_))));
}

fn joe_at_b7() -> Entity<User> {
    let input = answer(vec![Some("users!B7:C7")], Some(vec![vec![text("1"), text("Joe")]]));
    input.parse_positionally::<User>().unwrap().remove(0)
}

#[test]
fn update_overwrites_the_entity_row() {
    let mut entity = joe_at_b7();
    entity.data_mut().name = "Joseph".to_string();
    let (range, row) = update_request(&entity).unwrap();
    assert_eq!(range.to_string(), "'users'!B7:C7");
    assert_eq!(row, vec![text("1"), text("Joseph")]);
    assert_eq!(entity.position().cell, A1CellId::from_primitives("B", 7));
}

#[test]
fn insert_positions_entity_from_the_answer() {
    let start = SheetA1CellId::from_primitives("users", "A", 1);
    let data = User { id: 5, name: "Ann".to_string() };
    let (range, row) = insert_request(&start, 10, &data).unwrap();
    assert_eq!(range.to_string(), "'users'!A1:B10");
    assert_eq!(row, vec![text("5"), text("Ann")]);
    let response = AppendValuesResponse {
        updates: Some(UpdateValuesResponse { updated_range: Some("users!A4:B4".to_string()) }),
    };
    let entity = inserted_entity(&range, response, data.clone()).unwrap();
    assert_eq!(entity.position(), &SheetA1CellId::from_primitives("users", "A", 4));
    assert_eq!(entity.data(), &data);
}

#[test]
fn insert_without_updated_range_is_unexpected() {
    let start = SheetA1CellId::from_primitives("users", "A", 1);
    let range = convert_into_range(&start, 1, 2).unwrap();
    let data = User { id: 5, name: "Ann".to_string() };
    let no_range = AppendValuesResponse { updates: Some(UpdateValuesResponse { updated_range: None }) };
    match inserted_entity(&range, no_range, data.clone()) {
        Err(RepositoryError::UnexpectedResponse { input, response, .. }) => {
            assert_eq!(input, "'users'!A1:B1");
            assert!(response.updates.is_some());
            assert_eq!(response.updates.unwrap().updated_range, None);
        }
        other => panic!("expected an unexpected-response error, got {:?}", other),
    }
    let no_updates = AppendValuesResponse { updates: None };
    assert!(matches!(
        inserted_entity(&range, no_updates, data.clone()),
        Err(RepositoryError::UnexpectedResponse { response: AppendValuesResponse { updates: None }, .. })
    ));
    let garbled = AppendValuesResponse {
        updates: Some(UpdateValuesResponse { updated_range: Some("users".to_string()) }),
    };
    assert!(matches!(inserted_entity(&range, garbled, data), Err(RepositoryError::ParsingError)));
}

#[test]
fn delete_is_unsupported() {
    let entity = joe_at_b7();
    assert!(matches!(delete_entity(&entity), Err(RepositoryError::Unsupported(_))));
}

#[test]
fn rows_decode_strictly_or_leniently() {
    let rows: Vec<SheetRow> = vec![
        vec![text("1"), text("Joe")],
        vec![text("x"), text("Bad")],
        vec![text("3"), text("Jane")],
    ];
    let kept: Vec<User> = deserialize_rows_ignoring_errors(rows.clone());
    assert_eq!(
        kept,
        vec![User { id: 1, name: "Joe".to_string() }, User { id: 3, name: "Jane".to_string() }]
    );
    assert!(matches!(
        deserialize_rows::<User>(rows),
        Err(ParseError::CellDeserializationError { column_name: "id", .. })
    ));
    let good: Vec<SheetRow> = vec![vec![text("2"), text("John")]];
    assert_eq!(deserialize_rows::<User>(good), Ok(vec![User { id: 2, name: "John".to_string() }]));
}

#[test]
fn empty_answer_with_anchor_gives_no_entities() {
    let input = answer(vec![Some("users!A1:B3")], Some(vec![]));
    assert_eq!(input.parse_positionally::<User>().unwrap().len(), 0);
}
