use ft_engine::obj_asset::{Face, ObjAsset, VertexAttribute};

fn corner(v: u32, t: Option<u32>, n: Option<u32>) -> (u32, Option<u32>, Option<u32>) {
    (v, t, n)
}

fn corners(f: &Face) -> Vec<(u32, Option<u32>, Option<u32>)> {
    f.vertex_attributes()
        .iter()
        .map(|a| (a.vertex_index, a.vertex_texture_index, a.vertex_normal_index))
        .collect()
}

#[test]
fn vertex_attribute_forms() {
    let a = VertexAttribute::parse("7");
    assert_eq!((a.vertex_index, a.vertex_texture_index, a.vertex_normal_index), corner(7, None, None));
    let a = VertexAttribute::parse("7/8");
    assert_eq!((a.vertex_index, a.vertex_texture_index, a.vertex_normal_index), corner(7, Some(8), None));
    let a = VertexAttribute::parse("7//9");
    assert_eq!((a.vertex_index, a.vertex_texture_index, a.vertex_normal_index), corner(7, None, Some(9)));
    let a = VertexAttribute::parse("7/8/9");
    assert_eq!((a.vertex_index, a.vertex_texture_index, a.vertex_normal_index), corner(7, Some(8), Some(9)));
    let a = VertexAttribute::parse("+12/");
    assert_eq!((a.vertex_index, a.vertex_texture_index, a.vertex_normal_index), corner(12, None, None));
}

#[test]
fn vertex_attribute_refusals() {
    assert!(VertexAttribute::try_parse("").is_none());
    assert!(VertexAttribute::try_parse("/1").is_none());
    assert!(VertexAttribute::try_parse("1/2/3/4").is_none());
    assert!(VertexAttribute::try_parse("x").is_none());
    assert!(VertexAttribute::try_parse("1/y").is_none());
    assert!(VertexAttribute::try_parse("-1").is_none());
    assert!(VertexAttribute::try_parse("+").is_none());
    assert!(VertexAttribute::try_parse("4294967296").is_none());
    assert_eq!(VertexAttribute::try_parse("4294967295").map(|a| a.vertex_index), Some(u32::MAX));
}

#[test]
fn face_reads_its_corners() {
    let f = Face::parse("f 1 2/3 4//5");
    assert_eq!(corners(&f), vec![corner(1, None, None), corner(2, Some(3), None), corner(4, None, Some(5))]);
    let f = Face::parse("  f\t1/1/1   2/2/2 3/3/3 4/4/4 ");
    assert_eq!(corners(&f).len(), 4);
    assert_eq!(corners(&f)[3], corner(4, Some(4), Some(4)));
}

#[test]
fn face_refusals() {
    assert!(Face::try_parse("").is_none());
    assert!(Face::try_parse("v 1 2 3").is_none());
    assert!(Face::try_parse("f 1 2").is_none());
    assert!(Face::try_parse("f 1 2 x").is_none());
    assert!(Face::try_parse("ff 1 2 3").is_none());
}

#[test]
fn obj_asset_reads_every_line() {
    let a = ObjAsset::parse("f 1 2 3\nf 3 4 5 6\r\nf 1/1 2/2 3/3\n");
    assert_eq!(a.faces().len(), 3);
    assert_eq!(corners(&a.faces()[1]), vec![corner(3, None, None), corner(4, None, None), corner(5, None, None), corner(6, None, None)]);
    assert_eq!(corners(&a.faces()[2])[0], corner(1, Some(1), None));
    assert_eq!(ObjAsset::parse("").faces().len(), 0);
    assert_eq!(ObjAsset::parse("f 1 2 3").faces().len(), 1);
}

#[test]
fn obj_asset_refuses_other_lines() {
    assert!(ObjAsset::try_parse("v 1 2 3\nf 1 2 3\n").is_none());
    assert!(ObjAsset::try_parse("f 1 2 3\n\nf 1 2 3\n").is_none());
    assert!(ObjAsset::try_parse("\n").is_none());
}
