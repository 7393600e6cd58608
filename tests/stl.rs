use stl_reader::ascii::AsciiFacet;
use stl_reader::binary::{detect_format, StlError, StlFormat};
use stl_reader::weld::{weld_facets, GridKey, KeyedVertex, Mesh, Position, Welder};
use stl_reader::StlReader;

const STEP: f32 = 1.0e-6;

fn quantize(v: f32) -> i64 {
    (v / STEP).round() as i64
}

fn keyed(p: Position) -> KeyedVertex {
    let key = GridKey {
        x: quantize(f32::from_bits(p.x)),
        y: quantize(f32::from_bits(p.y)),
        z: quantize(f32::from_bits(p.z)),
    };
    KeyedVertex { position: p, key }
}

fn pos(x: f32, y: f32, z: f32) -> Position {
    Position { x: x.to_bits(), y: y.to_bits(), z: z.to_bits() }
}

fn binary_file(count: u32, tris: &[[[f32; 3]; 3]]) -> Vec<u8> {
    let mut out = vec![0u8; 80];
    out.extend_from_slice(&count.to_le_bytes());
    for t in tris {
        for _ in 0..3 {
            out.extend_from_slice(&0f32.to_le_bytes());
        }
        for v in t {
            for c in v {
                out.extend_from_slice(&c.to_le_bytes());
            }
        }
        out.extend_from_slice(&[0, 0]);
    }
    out
}

fn text_of(data: &[u8], s: stl_reader::ascii::Span) -> &str {
    std::str::from_utf8(&data[s.start..s.end]).unwrap()
}

fn parse_facets(data: &[u8], facets: &[AsciiFacet]) -> Result<Vec<Vec<KeyedVertex>>, String> {
    let mut out = Vec::new();
    for f in facets {
        let mut vs = Vec::new();
        for v in &f.vertices {
            let mut bits = [0u32; 3];
            for (k, s) in [v.x, v.y, v.z].iter().enumerate() {
                let t = text_of(data, *s);
                bits[k] = t.parse::<f32>().map_err(|_| t.to_string())?.to_bits();
            }
            vs.push(keyed(Position { x: bits[0], y: bits[1], z: bits[2] }));
        }
        out.push(vs);
    }
    Ok(out)
}

#[derive(Debug, PartialEq)]
enum LoadError {
    Truncated,
    Number(String),
}

fn load(data: &[u8]) -> Result<Mesh, LoadError> {
    let facets = match detect_format(data) {
        Err(StlError::TruncatedInput) => return Err(LoadError::Truncated),
        Ok(StlFormat::Ascii) => {
            let found = StlReader::read_ascii_stl(data);
            parse_facets(data, &found).map_err(LoadError::Number)?
        }
        Ok(StlFormat::Binary) => {
            let tris = StlReader::read_binary_stl(data).map_err(|_| LoadError::Truncated)?;
            tris.iter().map(|t| t.iter().map(|p| keyed(*p)).collect()).collect()
        }
    };
    Ok(weld_facets(&facets))
}

fn faces_of(m: &Mesh) -> Vec<[u32; 3]> {
    m.faces.clone()
}

fn assert_indices_valid(m: &Mesh) {
    for f in &m.faces {
        for i in f {
            assert!((*i as usize) < m.vertices.len());
        }
    }
}

const TRI_A: [[f32; 3]; 3] = [[0.0, 0.0, 0.0], [1.0, 0.0, 0.0], [0.0, 1.0, 0.0]];

const TEXT_B: &str = "solid t\n facet normal 0 0 1\n outer loop\n vertex 0 0 0\n vertex 1 0 0\n vertex 0 1 0\n endloop\n endfacet\n endsolid t\n";

#[test]
fn single_binary_triangle() {
    let data = binary_file(1, &[TRI_A]);
    assert_eq!(detect_format(&data), Ok(StlFormat::Binary));
    let m = load(&data).unwrap();
    assert_eq!(m.vertices, vec![pos(0.0, 0.0, 0.0), pos(1.0, 0.0, 0.0), pos(0.0, 1.0, 0.0)]);
    assert_eq!(faces_of(&m), vec![[0, 1, 2]]);
}

#[test]
fn single_text_triangle() {
    let data = TEXT_B.as_bytes();
    assert_eq!(detect_format(data), Ok(StlFormat::Ascii));
    let m = load(data).unwrap();
    let b = load(&binary_file(1, &[TRI_A])).unwrap();
    assert_eq!(m.vertices, b.vertices);
    assert_eq!(faces_of(&m), faces_of(&b));
    assert_eq!(faces_of(&m), vec![[0, 1, 2]]);
}

#[test]
fn shared_edge() {
    let t2 = [[1.0, 0.0, 0.0], [0.0, 0.0, 0.0], [0.0, -1.0, 0.0]];
    let m = load(&binary_file(2, &[TRI_A, t2])).unwrap();
    assert_eq!(m.vertices.len(), 4);
    assert_eq!(faces_of(&m), vec![[0, 1, 2], [1, 0, 3]]);
    assert_eq!(m.faces[0][0], m.faces[1][1]);
    assert_eq!(m.faces[0][1], m.faces[1][0]);
    assert_indices_valid(&m);
}

#[test]
fn truncated_records() {
    let data = binary_file(5, &[TRI_A, TRI_A]);
    assert_eq!(StlReader::read_binary_stl(&data), Err(StlError::TruncatedInput));
    assert_eq!(load(&data).err(), Some(LoadError::Truncated));
}

#[test]
fn partial_facet_dropped() {
    let text = "solid p\nfacet normal 0 0 1\nouter loop\nvertex 5 5 5\nvertex 6 6 6\nendloop\nendfacet\n\
facet normal 0 0 1\nouter loop\nvertex 0 0 0\nvertex 1 0 0\nvertex 0 1 0\nendloop\nendfacet\nendsolid p\n";
    let data = text.as_bytes();
    let found = StlReader::read_ascii_stl(data);
    assert_eq!(found.len(), 2);
    assert_eq!(found[0].vertices.len(), 2);
    assert_eq!(found[1].vertices.len(), 3);
    let m = load(data).unwrap();
    assert_eq!(faces_of(&m), vec![[0, 1, 2]]);
    assert_eq!(m.vertices, vec![pos(0.0, 0.0, 0.0), pos(1.0, 0.0, 0.0), pos(0.0, 1.0, 0.0)]);
}

#[test]
fn welding_same_position_twice() {
    let mut w = Welder::new();
    let v = keyed(pos(0.25, -3.5, 7.0));
    let i = w.weld(v);
    let j = w.weld(v);
    assert_eq!(i, 0);
    assert_eq!(i, j);
    assert_eq!(w.vertex_count(), 1);
}

#[test]
fn welding_within_and_beyond_tolerance() {
    let mut w = Welder::new();
    let a = keyed(pos(1.0, 2.0, 3.0));
    let near = keyed(pos(1.0 + 2.0e-7, 2.0 - 1.0e-7, 3.0));
    let far = keyed(pos(1.0, 2.0 + 3.0e-6, 3.0));
    let ia = w.weld(a);
    assert_eq!(w.weld(near), ia);
    assert_ne!(w.weld(far), ia);
    assert_eq!(w.vertex_count(), 2);
    let m = {
        let mut w2 = Welder::new();
        w2.add_triangle(a, near, far);
        w2.into_mesh()
    };
    assert_eq!(m.vertices, vec![a.position, far.position]);
    assert_eq!(faces_of(&m), vec![[0, 0, 1]]);
}

#[test]
fn first_position_of_a_key_is_kept() {
    let a = keyed(pos(1.0, 1.0, 1.0));
    let b = keyed(pos(1.0 + 1.0e-7, 1.0, 1.0));
    assert_eq!(a.key, b.key);
    assert_ne!(a.position, b.position);
    let m = weld_facets(&vec![vec![a, b, keyed(pos(4.0, 0.0, 0.0))]]);
    assert_eq!(m.vertices[0], a.position);
    assert_eq!(faces_of(&m), vec![[0, 0, 1]]);
}

#[test]
fn unshared_triangles_keep_every_vertex() {
    let tris: Vec<[[f32; 3]; 3]> = (0..3)
        .map(|t| {
            let o = 10.0 * t as f32;
            [[o, 0.0, 0.0], [o + 1.0, 0.0, 0.0], [o, 1.0, 0.0]]
        })
        .collect();
    let m = load(&binary_file(3, &tris)).unwrap();
    assert_eq!(m.vertices.len(), 9);
    assert_eq!(m.faces.len(), 3);
    assert_eq!(faces_of(&m), vec![[0, 1, 2], [3, 4, 5], [6, 7, 8]]);
    assert_indices_valid(&m);
}

#[test]
fn shared_triangles_have_fewer_vertices() {
    let tris = [
        [[0.0, 0.0, 0.0], [1.0, 0.0, 0.0], [0.0, 1.0, 0.0]],
        [[1.0, 0.0, 0.0], [1.0, 1.0, 0.0], [0.0, 1.0, 0.0]],
        [[1.0, 0.0, 0.0], [2.0, 0.0, 0.0], [1.0, 1.0, 0.0]],
    ];
    let m = load(&binary_file(3, &tris)).unwrap();
    assert!(m.vertices.len() < 9);
    assert_eq!(m.vertices.len(), 5);
    assert_eq!(m.faces.len(), 3);
    assert_indices_valid(&m);
}

#[test]
fn binary_and_text_give_the_same_mesh() {
    let tris = [
        [[0.0, 0.0, 0.0], [1.5, 0.0, 0.0], [0.0, 2.25, 0.0]],
        [[1.5, 0.0, 0.0], [1.5, 2.25, -1.0], [0.0, 2.25, 0.0]],
    ];
    let text = "SOLID cube\r\n  FACET NORMAL 0 0 1\r\n    OUTER LOOP\r\n      VERTEX 0 0 0\r\n      VERTEX 1.5 0 0\r\n\
      VERTEX 0 2.25 0\r\n    ENDLOOP\r\n  ENDFACET\r\n  facet normal 0 0 1\r\n    outer loop\r\n\
      vertex 1.5e0 0.0 0.0\r\n      vertex 1.5 2.25 -1\r\n      vertex 0.0 2.25 0.0\r\n    endloop\r\n  endfacet\r\nendsolid cube";
    let b = load(&binary_file(2, &tris)).unwrap();
    let a = load(text.as_bytes()).unwrap();
    assert_eq!(a.vertices, b.vertices);
    assert_eq!(faces_of(&a), faces_of(&b));
    assert_eq!(faces_of(&a), vec![[0, 1, 2], [1, 3, 2]]);
}

#[test]
fn short_input_is_truncated() {
    assert_eq!(detect_format(b""), Err(StlError::TruncatedInput));
    assert_eq!(detect_format(b"soli"), Err(StlError::TruncatedInput));
    assert_eq!(detect_format(b"SoLiD"), Ok(StlFormat::Ascii));
    assert_eq!(detect_format(b"sold!"), Ok(StlFormat::Binary));
}

#[test]
fn binary_header_and_count_must_be_present() {
    assert_eq!(StlReader::read_binary_stl(&[0u8; 83]), Err(StlError::TruncatedInput));
    let empty = binary_file(0, &[]);
    assert_eq!(StlReader::read_binary_stl(&empty), Ok(vec![]));
    let m = load(&empty).unwrap();
    assert!(m.vertices.is_empty() && m.faces.is_empty());
    let mut short = binary_file(1, &[TRI_A]);
    short.pop();
    assert_eq!(StlReader::read_binary_stl(&short), Err(StlError::TruncatedInput));
}

#[test]
fn binary_records_decode_little_endian() {
    let tri = [[1.0, -2.0, 0.5], [3.0e10, 0.0, -0.0], [1.0e-3, 7.0, 8.0]];
    let mut data = binary_file(1, &[tri]);
    data[0] = b'x';
    let got = StlReader::read_binary_stl(&data).unwrap();
    assert_eq!(got.len(), 1);
    assert_eq!(got[0][0], pos(1.0, -2.0, 0.5));
    assert_eq!(got[0][1], pos(3.0e10, 0.0, -0.0));
    assert_eq!(got[0][2], pos(1.0e-3, 7.0, 8.0));
    assert_eq!(got[0][0].x, 0x3f80_0000);
    assert_eq!(got[0][0].y, 0xc000_0000);
}

#[test]
fn binary_count_larger_than_data() {
    let mut data = binary_file(0, &[]);
    data[80..84].copy_from_slice(&u32::MAX.to_le_bytes());
    assert_eq!(StlReader::read_binary_stl(&data), Err(StlError::TruncatedInput));
}

#[test]
fn text_tokens_are_located() {
    let data = b"solid x\nfacet normal 0 0 1\nouter loop\n  vertex  1.25\t-2 3e1 extra\nvertex 4 5\nvertex a b c\nendloop\n";
    let found = StlReader::read_ascii_stl(data);
    assert_eq!(found.len(), 1);
    let f = &found[0];
    assert_eq!(f.vertices.len(), 2);
    assert_eq!(text_of(data, f.vertices[0].x), "1.25");
    assert_eq!(text_of(data, f.vertices[0].y), "-2");
    assert_eq!(text_of(data, f.vertices[0].z), "3e1");
    assert_eq!(text_of(data, f.vertices[1].x), "a");
    assert_eq!(load(data).err(), Some(LoadError::Number("a".to_string())));
}

#[test]
fn text_lines_outside_blocks_are_skipped() {
    let data = b"solid\n\nendloop\nvertex 1 2 3\nfacet normal\nouter loop\nvertex 0 0 0\nvertex 0 0 1\nvertex 0 1 0\nfacet normal 1 0 0\n";
    let found = StlReader::read_ascii_stl(data);
    assert_eq!(found.len(), 2);
    assert_eq!(found[0].vertices.len(), 3);
    assert_eq!(found[1].vertices.len(), 0);
    let m = load(data).unwrap();
    assert_eq!(m.vertices.len(), 3);
    assert_eq!(faces_of(&m), vec![[0, 1, 2]]);
}

#[test]
fn text_without_facets_is_empty() {
    let m = load(b"solid nothing here\nendsolid\n").unwrap();
    assert!(m.vertices.is_empty());
    assert!(m.faces.is_empty());
}

#[test]
fn mesh_flattens_in_order() {
    let m = load(&binary_file(1, &[TRI_A])).unwrap();
    let v = m.flat_vertices();
    assert_eq!(v.len(), 9);
    assert_eq!(v[3], 1.0f32.to_bits());
    assert_eq!(v[7], 1.0f32.to_bits());
    assert_eq!(v[0], 0);
    let t2 = [[1.0, 0.0, 0.0], [0.0, 0.0, 0.0], [0.0, -1.0, 0.0]];
    let m2 = load(&binary_file(2, &[TRI_A, t2])).unwrap();
    assert_eq!(m2.flat_faces(), vec![0, 1, 2, 1, 0, 3]);
}

#[test]
fn degenerate_faces_pass_through() {
    let p = [0.5, 0.5, 0.5];
    let m = load(&binary_file(1, &[[p, p, p]])).unwrap();
    assert_eq!(m.vertices.len(), 1);
    assert_eq!(faces_of(&m), vec![[0, 0, 0]]);
}

#[test]
fn reader_is_constructible() {
    let r = StlReader::new();
    let _ = r;
}
