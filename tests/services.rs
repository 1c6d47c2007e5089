use movie_booking::app_error::{AppError, FieldError, RowField};
use movie_booking::config::{
    get_default_env, get_default_host, get_default_log_level, get_default_port, Config, Environment,
    LogLevel, PoolSettings,
};
use movie_booking::ids::{identifier_from_parsed, parse_identifier};
use movie_booking::movies::{
    get_default_limit, get_default_page, get_default_sort_options, movie_or_not_found, page_info,
    parse_direction, parse_sort_tuple, string_to_column, Info, Movie, SortColumn, SortOrder,
};
use movie_booking::row::{Field, Number, Row, Scalar};
use movie_booking::seats::{get_taken_seats, seat_query, SeatQuery, TakenSeat};

const SHOWTIME: &str = "67e55044-10b1-426f-9247-bb680e5fe0c8";
const SHOWTIME_VALUE: u128 = 0x67e5504410b1426f9247bb680e5fe0c8;

fn seat(showtime_id: u128, room: i32, id: &str) -> TakenSeat {
    TakenSeat { showtime_id, showtime_room_id: room, seat_identifier: id.to_string() }
}

#[test]
fn seat_lookup_without_markers_is_empty() {
    let q = seat_query(SHOWTIME, 3).unwrap();
    assert_eq!(get_taken_seats(&q, &vec![]), Vec::<String>::new());
}

#[test]
fn seat_lookup_with_bad_id_is_invalid_argument() {
    match seat_query("not-a-uuid", 3) {
        Err(AppError::InvalidArgument { value }) => assert_eq!(value, "not-a-uuid"),
        other => panic!("unexpected {:?}", other),
    }
}

#[test]
fn seat_query_reads_uuid() {
    assert_eq!(
        seat_query(SHOWTIME, 3).unwrap(),
        SeatQuery { showtime_id: SHOWTIME_VALUE, showtime_room_id: 3 }
    );
    assert_eq!(parse_identifier("67e5504410b1426f9247bb680e5fe0c8").unwrap(), SHOWTIME_VALUE);
}

#[test]
fn identifier_from_parsed_cases() {
    assert_eq!(identifier_from_parsed("x", Some(42)).unwrap(), 42);
    match identifier_from_parsed("x", None) {
        Err(AppError::InvalidArgument { value }) => assert_eq!(value, "x"),
        other => panic!("unexpected {:?}", other),
    }
}

#[test]
fn taken_seats_of_one_screening() {
    let q = SeatQuery { showtime_id: 1, showtime_room_id: 2 };
    let markers = vec![seat(1, 2, "A1"), seat(1, 3, "A2"), seat(9, 2, "A3"), seat(1, 2, "B7")];
    assert_eq!(get_taken_seats(&q, &markers), vec!["A1".to_string(), "B7".to_string()]);
}

#[test]
fn sort_options_parse() {
    let t = parse_sort_tuple("title-asc").unwrap();
    assert_eq!(t.0, "title");
    assert_eq!(t.1, SortOrder::Asc);
    let t = parse_sort_tuple("rating-desc").unwrap();
    assert_eq!(t.0, "rating");
    assert_eq!(t.1, SortOrder::Desc);
}

#[test]
fn sort_options_refused() {
    assert_eq!(parse_sort_tuple("title").unwrap_err(), "title");
    assert_eq!(parse_sort_tuple("a-b-asc").unwrap_err(), "a-b-asc");
    assert_eq!(parse_sort_tuple("-asc").unwrap_err(), "-asc");
    assert_eq!(parse_sort_tuple("title-up").unwrap_err(), "up");
    assert_eq!(parse_sort_tuple("").unwrap_err(), "");
}

#[test]
fn direction_names() {
    assert_eq!(parse_direction("asc"), Some(SortOrder::Asc));
    assert_eq!(parse_direction("desc"), Some(SortOrder::Desc));
    assert_eq!(parse_direction("DESC"), None);
}

#[test]
fn sort_columns() {
    assert_eq!(string_to_column("id").unwrap(), SortColumn::Id);
    assert_eq!(string_to_column("title").unwrap(), SortColumn::Title);
    assert_eq!(string_to_column("overview").unwrap(), SortColumn::Overview);
    assert_eq!(string_to_column("genre").unwrap(), SortColumn::Genre);
    assert_eq!(string_to_column("rating").unwrap(), SortColumn::Rating);
    match string_to_column("poster") {
        Err(AppError::InvalidArgument { value }) => assert_eq!(value, "poster"),
        other => panic!("unexpected {:?}", other),
    }
}

#[test]
fn catalogue_defaults() {
    assert_eq!(get_default_limit(), 10);
    assert_eq!(get_default_page(), 1);
    let s = get_default_sort_options();
    assert_eq!(s.0, "rating");
    assert_eq!(s.1, SortOrder::Desc);
}

#[test]
fn page_info_counts_one_less() {
    assert_eq!(page_info(2, 5), Info { current_page: 2, total_page: 4 });
    assert_eq!(page_info(1, 0), Info { current_page: 1, total_page: 0 });
}

#[test]
fn missing_movie_is_not_found() {
    match movie_or_not_found("m-1", None) {
        Err(e @ AppError::NotFound { .. }) => {
            assert_eq!(e.status_code(), 404);
            assert_eq!(e.get_error_message(), "Movie with id: m-1 does not exist");
        }
        other => panic!("unexpected {:?}", other),
    }
    let m = Movie {
        id: "m-1".to_string(),
        title: "Dune".to_string(),
        overview: "".to_string(),
        rating: 8.5f32.to_bits(),
        genre: "Sci-Fi".to_string(),
        poster_url: "u".to_string(),
    };
    assert_eq!(movie_or_not_found("m-1", Some(m)).unwrap().title, "Dune");
}

#[test]
fn status_codes_and_levels() {
    let malformed = AppError::MalformedRow { field: RowField::CreatedAt, row: 0 };
    assert_eq!(malformed.status_code(), 500);
    assert_eq!(malformed.log_level(), LogLevel::Error);
    let storage = AppError::Storage { cause: "timeout".to_string() };
    assert_eq!(storage.status_code(), 500);
    assert_eq!(storage.log_level(), LogLevel::Error);
    let bad = AppError::BadRequest("x".to_string());
    assert_eq!(bad.status_code(), 400);
    assert_eq!(bad.log_level(), LogLevel::Info);
    assert_eq!(AppError::Unauthorized("y".to_string()).status_code(), 401);
    assert_eq!(AppError::InvalidArgument { value: "z".to_string() }.status_code(), 400);
    assert_eq!(AppError::Validation(vec![]).status_code(), 400);
}

#[test]
fn error_messages() {
    let generic = "An internal server error occured. Please try again later.";
    assert_eq!(AppError::MalformedRow { field: RowField::Id, row: 3 }.get_error_message(), generic);
    assert_eq!(AppError::Storage { cause: "secret detail".to_string() }.get_error_message(), generic);
    assert_eq!(AppError::Validation(vec![]).get_error_message(), "ValidationError");
    assert_eq!(AppError::Unauthorized("no token".to_string()).get_error_message(), "Unauthorized: no token");
    assert_eq!(AppError::BadRequest("bad".to_string()).get_error_message(), "BadRequest: bad");
    assert_eq!(
        AppError::InvalidArgument { value: "abc".to_string() }.get_error_message(),
        "InvalidArgument: abc"
    );
}

#[test]
fn error_response_bodies() {
    let e = AppError::Validation(vec![FieldError { field: "limit".to_string(), message: "too big".to_string() }]);
    let msg = e.get_error_message();
    let body = e.error_response(&msg);
    assert_eq!(body.code, 400);
    assert_eq!(body.message, "ValidationError");
    let errs = body.validation_errors.unwrap();
    assert_eq!(errs.len(), 1);
    assert_eq!(errs[0].field, "limit");
    let e2 = AppError::Storage { cause: "c".to_string() };
    let body2 = e2.error_response("m");
    assert_eq!(body2.code, 500);
    assert!(body2.validation_errors.is_none());
}

#[test]
fn row_field_columns() {
    assert_eq!(RowField::Id.column_name(), "id");
    assert_eq!(RowField::ShrRoomName.column_name(), "shr_room_name");
    assert_eq!(RowField::TLocation.column_name(), "t_location");
}

fn config(env: Environment, log: &str) -> Config {
    Config {
        rust_env: env,
        rust_log: log.to_string(),
        port: 8080,
        host: "127.0.0.1".to_string(),
        database_url: "postgres://localhost/db".to_string(),
    }
}

#[test]
fn log_level_names() {
    assert_eq!(config(Environment::Development, "info").rust_log_to_level_filter(), LogLevel::Info);
    assert_eq!(config(Environment::Development, "error").rust_log_to_level_filter(), LogLevel::Error);
    assert_eq!(config(Environment::Development, "warn").rust_log_to_level_filter(), LogLevel::Warn);
    assert_eq!(config(Environment::Development, "trace").rust_log_to_level_filter(), LogLevel::Debug);
}

#[test]
fn config_defaults() {
    assert_eq!(get_default_env(), Environment::Development);
    assert_eq!(Environment::default(), Environment::Development);
    assert_eq!(get_default_port(), 8080);
    assert_eq!(get_default_host(), "127.0.0.1");
    assert_eq!(get_default_log_level(), "info");
}

#[test]
fn pool_settings_follow_environment() {
    let dev = config(Environment::Development, "info").pool_settings();
    assert_eq!(
        dev,
        PoolSettings {
            max_connections: 15,
            min_connections: 10,
            connect_timeout_secs: 10,
            acquire_timeout_secs: 10,
            sql_logging: true
        }
    );
    assert!(!config(Environment::Production, "info").pool_settings().sql_logging);
}

#[test]
fn row_accessors() {
    let r = Row {
        fields: vec![
            Field { name: "a".to_string(), value: Scalar::Text("x".to_string()) },
            Field { name: "n".to_string(), value: Scalar::Number(Number::Integer(-3)) },
            Field { name: "big".to_string(), value: Scalar::Number(Number::Integer(1 << 70)) },
            Field { name: "a".to_string(), value: Scalar::Text("second".to_string()) },
            Field { name: "f".to_string(), value: Scalar::Number(Number::Float(1.5f64.to_bits())) },
        ],
    };
    assert_eq!(r.get_text("a").unwrap(), "x");
    assert_eq!(r.get_text("n"), None);
    assert_eq!(r.get_text_or_empty("missing"), "");
    assert_eq!(r.get_signed("n"), Some(-3));
    assert_eq!(r.get_unsigned("n"), None);
    assert_eq!(r.get_unsigned("big"), None);
    assert_eq!(r.get_signed("big"), None);
    assert_eq!(r.get_unsigned("f"), None);
    assert_eq!(r.get_number("f"), Some(Number::Float(1.5f64.to_bits())));
    assert!(r.get("zzz").is_none());
}
