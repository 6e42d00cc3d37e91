use redisql::engine::{Entity, QueryResult};
use redisql::worker::{create_data_to_return, ReturnMethod};
use redisql::error::ErrorKind;
use redisql::stream::{
    stream_query_result_array, type_label, yields_before, HostContext, RowChunks, RowFiller,
    StreamContext, StreamField,
};

#[derive(Default)]
struct Host {
    clock: u64,
    tick: u64,
    locks: usize,
    releases: usize,
    entries: Vec<Vec<StreamField>>,
    fail_at: Option<usize>,
}

impl HostContext for Host {
    fn now(&mut self) -> u64 {
        self.clock += self.tick;
        self.clock
    }
    fn lock(&mut self) {
        self.locks += 1;
    }
    fn release(&mut self) {
        self.releases += 1;
    }
    fn append(&mut self, _stream: &str, fields: &Vec<StreamField>) -> Result<String, String> {
        if self.fail_at == Some(self.entries.len()) {
            return Err("ERR stream full".to_string());
        }
        self.entries.push(fields.clone());
        Ok(format!("{}-0", self.entries.len()))
    }
}

fn ints(n: usize) -> RowChunks {
    RowChunks::new((0..n as i64).map(|i| Entity::Integer { int: i }).collect(), 1)
}

fn names() -> Vec<String> {
    vec!["v".to_string()]
}

fn stream_rows(n: usize) -> (StreamContext<Host>, usize) {
    let mut ctx = StreamContext::new(Host::default());
    let mut rows = ints(n);
    let r = stream_query_result_array(&mut ctx, "s", &names(), &mut rows, 100).unwrap();
    match r {
        QueryResult::Array { array, .. } => match array[3] {
            Entity::Integer { int } => (ctx, int as usize),
            _ => panic!("size is not an integer"),
        },
        _ => panic!("expected a summary"),
    }
}

#[test]
fn lock_cycles_follow_row_count() {
    for (n, cycles) in [(1usize, 0usize), (256, 0), (257, 1), (512, 1), (513, 2), (1000, 3)] {
        let (ctx, size) = stream_rows(n);
        assert_eq!(size, n);
        assert_eq!(ctx.host().releases, cycles + 1);
        assert_eq!(ctx.host().locks, cycles + 1);
        assert_eq!(ctx.lock_cycles() as usize, cycles);
        assert_eq!(ctx.longest_hold() as usize, n.min(256));
        assert!(!ctx.held());
    }
}

#[test]
fn yield_points_are_multiples_of_256() {
    assert!(!yields_before(0));
    assert!(!yields_before(255));
    assert!(yields_before(256));
    assert!(!yields_before(257));
    assert!(yields_before(512));
}

#[test]
fn expired_stream_appends_nothing() {
    let mut ctx = StreamContext::new(Host { clock: 11, ..Host::default() });
    let mut rows = ints(3);
    let e = stream_query_result_array(&mut ctx, "s", &names(), &mut rows, 10).unwrap_err();
    assert_eq!(e.kind, ErrorKind::Timeout);
    assert!(ctx.host().entries.is_empty());
    assert_eq!(ctx.host().locks, 0);
}

#[test]
fn deadline_mid_stream_keeps_appended_entries() {
    let mut ctx = StreamContext::new(Host { tick: 10, ..Host::default() });
    let mut rows = ints(600);
    let e = stream_query_result_array(&mut ctx, "s", &names(), &mut rows, 15).unwrap_err();
    assert_eq!(e.kind, ErrorKind::Timeout);
    // the check at the start passes (clock 10), the one before row 256 fails (clock 20)
    assert_eq!(ctx.host().entries.len(), 256);
    assert_eq!(ctx.host().locks, ctx.host().releases);
    assert!(!ctx.held());
}

#[test]
fn empty_result_is_an_error() {
    let mut ctx = StreamContext::new(Host::default());
    let r = create_data_to_return(
        &mut ctx,
        Ok(QueryResult::Array { names: names(), array: vec![] }),
        &ReturnMethod::Stream { name: "s".to_string() },
        10,
    );
    assert_eq!(r.unwrap_err().kind, ErrorKind::Engine);
    assert_eq!(ctx.host().locks, 0);
    assert!(ctx.host().entries.is_empty());
}

#[test]
fn append_failure_stops_the_stream() {
    let mut ctx = StreamContext::new(Host { fail_at: Some(2), ..Host::default() });
    let mut rows = ints(5);
    let e = stream_query_result_array(&mut ctx, "s", &names(), &mut rows, 10).unwrap_err();
    assert_eq!(e.kind, ErrorKind::Engine);
    assert_eq!(e.debug, "ERR stream full");
    assert_eq!(e.description, "Error in XADD to s");
    assert_eq!(ctx.host().entries.len(), 2);
    assert!(!ctx.held());
}

#[test]
fn fields_are_tagged_by_type_and_column() {
    let cells = vec![
        Entity::Integer { int: 1 },
        Entity::Real { text: "1.5".to_string() },
        Entity::Text { text: "x".to_string() },
        Entity::Blob { blob: "b".to_string() },
        Entity::Null,
        Entity::OK,
    ];
    let cols: Vec<String> = ["i", "r", "t", "b", "n", "o"].iter().map(|s| s.to_string()).collect();
    let mut ctx = StreamContext::new(Host::default());
    let mut rows = RowChunks::new(cells, 6);
    stream_query_result_array(&mut ctx, "s", &cols, &mut rows, 10).unwrap();
    let got: Vec<String> = ctx.host().entries[0].iter().map(|f| f.name.clone()).collect();
    assert_eq!(got, vec!["int:i", "real:r", "text:t", "blob:b"]);
    assert!(matches!(&ctx.host().entries[0][2].value, Entity::Text { text } if text == "x"));
    assert_eq!(type_label(&Entity::DONE { modified_rows: 1 }), None);
    assert_eq!(type_label(&Entity::Null), None);
}

#[test]
fn row_chunks_hand_out_rows_with_a_short_last_one() {
    let cells: Vec<Entity> = (0..5).map(|i| Entity::Integer { int: i }).collect();
    let mut rows = RowChunks::new(cells, 2);
    let mut row = Vec::new();
    assert_eq!(rows.fill_row(&mut row), Some(2));
    assert_eq!(rows.fill_row(&mut row), Some(2));
    assert_eq!(rows.fill_row(&mut row), Some(1));
    assert!(matches!(row[0], Entity::Integer { int: 4 }));
    assert_eq!(rows.fill_row(&mut row), None);
    assert!(row.is_empty());
}
