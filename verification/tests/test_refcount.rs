use grust::gobject::{AsObject, Object, TypeInstance};
use grust::gtype::{self, GType};
use grust::heap::Heap;
use grust::object::{self, InvalidCast, ObjectType, Upcast};
use grust::refcount::{ref_from_ptr, ref_into_raw, Ref, SyncRef, Threadsafe};
use grust::runtime::Runtime;
use grust::wrap::{self, RawPtr, Wrapper};

// A small hierarchy in the fashion of an I/O library: input streams are
// objects, file input streams are input streams, and files are objects of
// their own kind.

struct InputStream {
    parent_instance: Object,
}

struct FileInputStream {
    parent_instance: InputStream,
}

struct File {
    parent_instance: Object,
}

impl Wrapper for InputStream {
    fn as_ptr(&self) -> RawPtr {
        self.parent_instance.as_ptr()
    }

    fn as_mut_ptr(&self) -> RawPtr {
        self.parent_instance.as_mut_ptr()
    }

    fn wrap(ptr: RawPtr) -> Self {
        InputStream { parent_instance: wrap::from_raw(ptr) }
    }
}

impl Wrapper for FileInputStream {
    fn as_ptr(&self) -> RawPtr {
        self.parent_instance.as_ptr()
    }

    fn as_mut_ptr(&self) -> RawPtr {
        self.parent_instance.as_mut_ptr()
    }

    fn wrap(ptr: RawPtr) -> Self {
        FileInputStream { parent_instance: wrap::from_raw(ptr) }
    }
}

impl Wrapper for File {
    fn as_ptr(&self) -> RawPtr {
        self.parent_instance.as_ptr()
    }

    fn as_mut_ptr(&self) -> RawPtr {
        self.parent_instance.as_mut_ptr()
    }

    fn wrap(ptr: RawPtr) -> Self {
        File { parent_instance: wrap::from_raw(ptr) }
    }
}

// The heap gives its types their tags in the order in which they are
// registered: `world` registers the three types in this order.

const INPUT_STREAM: usize = 256 << 2;
const FILE_INPUT_STREAM: usize = 257 << 2;
const FILE: usize = 258 << 2;

impl ObjectType for InputStream {
    fn get_type() -> GType {
        GType::new(INPUT_STREAM)
    }
}

impl ObjectType for FileInputStream {
    fn get_type() -> GType {
        GType::new(FILE_INPUT_STREAM)
    }
}

impl ObjectType for File {
    fn get_type() -> GType {
        GType::new(FILE)
    }
}

impl Threadsafe for File {}

impl Upcast<Object> for InputStream {
    fn upcast(&self) -> &Object {
        &self.parent_instance
    }
}

impl Upcast<InputStream> for FileInputStream {
    fn upcast(&self) -> &InputStream {
        &self.parent_instance
    }
}

impl Upcast<Object> for FileInputStream {
    fn upcast(&self) -> &Object {
        let stream: &InputStream = self.upcast();
        stream.upcast()
    }
}

impl Upcast<Object> for File {
    fn upcast(&self) -> &Object {
        &self.parent_instance
    }
}

fn world() -> Heap {
    let mut rt = Heap::new();
    let object = GType::new(gtype::OBJECT);
    let input_stream = rt.register_type(b"GInputStream", object).unwrap();
    assert_eq!(input_stream, InputStream::get_type());
    let file_input_stream = rt.register_type(b"GFileInputStream", input_stream).unwrap();
    assert_eq!(file_input_stream, FileInputStream::get_type());
    let file = rt.register_type(b"GFile", object).unwrap();
    assert_eq!(file, File::get_type());
    rt
}

fn new_file(rt: &mut Heap) -> Ref<File> {
    let ptr = rt.new_object(File::get_type()).unwrap();
    Ref::from_raw(ptr)
}

#[test]
fn end_to_end_scenario() {
    let mut rt = world();
    let ptr = rt.new_object(File::get_type()).unwrap();
    assert_eq!(rt.ref_count(ptr), 1);
    let first: Ref<File> = Ref::from_raw(ptr);
    assert_eq!(rt.ref_count(ptr), 1);
    let second = first.clone(&mut rt);
    assert_eq!(rt.ref_count(ptr), 2);
    first.drop(&mut rt);
    assert_eq!(rt.ref_count(ptr), 1);
    assert_eq!(rt.destroyed_count(), 0);
    assert!(rt.is_live(second.as_ptr()));
    assert_eq!(second.deref().as_ptr(), ptr);
    second.drop(&mut rt);
    assert_eq!(rt.ref_count(ptr), 0);
    assert!(!rt.is_live(ptr));
    assert_eq!(rt.destroyed_count(), 1);
}

#[test]
fn from_raw_takes_no_reference() {
    let mut rt = world();
    let ptr = rt.new_object(File::get_type()).unwrap();
    let f: Ref<File> = Ref::from_raw(ptr);
    assert_eq!(f.as_ptr(), ptr);
    assert_eq!(rt.ref_count(ptr), 1);
    let g: Ref<File> = ref_from_ptr(ptr);
    assert_eq!(rt.ref_count(ptr), 1);
    assert_eq!(ref_into_raw(g), ptr);
    assert_eq!(rt.ref_count(ptr), 1);
    f.drop(&mut rt);
    assert_eq!(rt.destroyed_count(), 1);
}

#[test]
fn new_takes_a_reference_and_leaves_the_source() {
    let mut rt = world();
    let f = new_file(&mut rt);
    let g = Ref::new(&mut rt, f.deref());
    assert_eq!(g.as_ptr(), f.as_ptr());
    assert_eq!(rt.ref_count(f.as_ptr()), 2);
    let h = f.borrow().new_ref(&mut rt);
    assert_eq!(h.as_ptr(), f.as_ptr());
    assert_eq!(rt.ref_count(f.as_ptr()), 3);
}

#[test]
fn balance_over_clones_and_drops() {
    let mut rt = world();
    let f = new_file(&mut rt);
    let ptr = f.as_ptr();
    let mut handles = vec![f];
    for n in 1..10u32 {
        let next = handles[0].clone(&mut rt);
        handles.push(next);
        assert_eq!(rt.ref_count(ptr), n + 1);
        assert_eq!(rt.ref_count(ptr) as usize, handles.len());
    }
    while let Some(h) = handles.pop() {
        assert!(rt.is_live(ptr));
        h.drop(&mut rt);
        assert_eq!(rt.ref_count(ptr) as usize, handles.len());
    }
    assert!(!rt.is_live(ptr));
    assert_eq!(rt.destroyed_count(), 1);
}

#[test]
fn clone_from_another_object() {
    let mut rt = world();
    let f = new_file(&mut rt);
    let mut g = new_file(&mut rt);
    let (pf, pg) = (f.as_ptr(), g.as_ptr());
    assert!(pf != pg);
    g.clone_from(&mut rt, &f);
    assert_eq!(g.as_ptr(), pf);
    assert_eq!(rt.ref_count(pf), 2);
    assert_eq!(rt.ref_count(pg), 0);
    assert!(!rt.is_live(pg));
    assert_eq!(rt.destroyed_count(), 1);
}

#[test]
fn clone_from_the_same_object_does_nothing() {
    let mut rt = world();
    let f = new_file(&mut rt);
    let mut g = f.clone(&mut rt);
    let ptr = f.as_ptr();
    assert_eq!(rt.ref_count(ptr), 2);
    g.clone_from(&mut rt, &f);
    assert_eq!(g.as_ptr(), ptr);
    assert_eq!(rt.ref_count(ptr), 2);
    assert_eq!(rt.destroyed_count(), 0);
}

#[test]
fn clone_from_the_same_object_with_one_reference_each_way() {
    // Two handles that adopted one reference each: to assign one to the
    // other must not bring the count down to zero on the way.
    let mut rt = world();
    let f = new_file(&mut rt);
    let ptr = f.as_ptr();
    rt.inc_ref(grust::refcount::RefcountFuncs::Object, ptr);
    let mut g: Ref<File> = Ref::from_raw(ptr);
    g.clone_from(&mut rt, &f);
    assert_eq!(rt.ref_count(ptr), 2);
    assert!(rt.is_live(ptr));
}

#[test]
fn sync_ref_counts_as_ref_does() {
    let mut rt = world();
    let ptr = rt.new_object(File::get_type()).unwrap();
    let f: SyncRef<File> = SyncRef::from_raw(ptr);
    let g = f.clone(&mut rt);
    assert_eq!(rt.ref_count(ptr), 2);
    let h = SyncRef::new(&mut rt, g.deref());
    assert_eq!(rt.ref_count(ptr), 3);
    let mut k: SyncRef<File> = SyncRef::from_raw(rt.new_object(File::get_type()).unwrap());
    k.clone_from(&mut rt, &f);
    assert_eq!(rt.ref_count(ptr), 4);
    assert_eq!(rt.destroyed_count(), 1);
    f.drop(&mut rt);
    g.drop(&mut rt);
    h.drop(&mut rt);
    k.drop(&mut rt);
    assert!(!rt.is_live(ptr));
    assert_eq!(rt.destroyed_count(), 2);
}

fn assert_send_and_sync<T: Send + Sync>(_: &T) {}

#[test]
fn sync_ref_may_cross_threads() {
    let mut rt = world();
    let f: SyncRef<File> = SyncRef::from_raw(rt.new_object(File::get_type()).unwrap());
    assert_send_and_sync(&f);
}

#[test]
fn type_of_is_stable() {
    assert_eq!(object::type_of::<File>(), object::type_of::<File>());
    assert_eq!(object::type_of::<File>(), File::get_type());
    assert_eq!(object::type_of::<Object>(), GType::new(gtype::OBJECT));
    assert!(object::type_of::<File>() != object::type_of::<InputStream>());
}

#[test]
fn fundamental_tags() {
    assert_eq!(gtype::INVALID, 0);
    assert_eq!(gtype::NONE, 4);
    assert_eq!(gtype::BOOLEAN, 20);
    assert_eq!(gtype::STRING, 64);
    assert_eq!(gtype::OBJECT, 80);
    assert_eq!(gtype::VARIANT, 84);
    assert_eq!(GType::new(gtype::STRING).to_raw(), 16 << 2);
}

#[test]
fn is_instance_of_follows_the_hierarchy() {
    let mut rt = world();
    let ptr = rt.new_object(FileInputStream::get_type()).unwrap();
    let stream: FileInputStream = wrap::from_raw(ptr);
    assert!(object::is_instance_of::<FileInputStream, FileInputStream, _>(&rt, &stream));
    assert!(object::is_instance_of::<FileInputStream, InputStream, _>(&rt, &stream));
    assert!(object::is_instance_of::<FileInputStream, Object, _>(&rt, &stream));
    assert!(!object::is_instance_of::<FileInputStream, File, _>(&rt, &stream));
    let base: &InputStream = stream.upcast();
    assert!(object::is_instance_of::<InputStream, FileInputStream, _>(&rt, base));
}

#[test]
fn no_object_is_an_instance_of_a_fundamental_non_type() {
    let mut rt = world();
    let f = new_file(&mut rt);
    assert!(!rt.check_instance_is_a(f.as_ptr(), GType::new(gtype::INVALID)));
    assert!(!rt.check_instance_is_a(f.as_ptr(), GType::new(gtype::NONE)));
    assert!(!rt.check_instance_is_a(f.as_ptr(), GType::new(gtype::STRING)));
    assert!(rt.check_instance_is_a(f.as_ptr(), GType::new(gtype::OBJECT)));
}

#[test]
fn cast_to_own_type() {
    let mut rt = world();
    let f = new_file(&mut rt);
    let same: File = object::try_cast::<File, File, _>(&rt, f.deref()).ok().unwrap();
    assert_eq!(same.as_ptr(), f.as_ptr());
}

#[test]
fn downcast_succeeds_iff_instance() {
    let mut rt = world();
    let ptr = rt.new_object(FileInputStream::get_type()).unwrap();
    let object: Object = wrap::from_raw(ptr);
    let is_a = object::is_instance_of::<Object, FileInputStream, _>(&rt, &object);
    let cast = object::try_cast::<Object, FileInputStream, _>(&rt, &object);
    assert!(is_a);
    assert_eq!(cast.is_ok(), is_a);
    assert_eq!(cast.ok().unwrap().as_ptr(), ptr);
    let stream: FileInputStream = object::cast::<Object, FileInputStream, _>(&rt, &object);
    assert_eq!(stream.as_ptr(), ptr);

    let plain = rt.new_object(InputStream::get_type()).unwrap();
    let object: Object = wrap::from_raw(plain);
    let is_a = object::is_instance_of::<Object, FileInputStream, _>(&rt, &object);
    let cast = object::try_cast::<Object, FileInputStream, _>(&rt, &object);
    assert!(!is_a);
    assert_eq!(cast.is_ok(), is_a);
}

#[test]
fn cast_fail() {
    let mut rt = world();
    let rf = new_file(&mut rt);
    let res = object::try_cast::<File, FileInputStream, _>(&rt, rf.deref());
    let refused = res.err().unwrap();
    assert_eq!(refused, InvalidCast { target: FileInputStream::get_type() });
    assert_eq!(refused.message(&rt), "invalid cast to type GFileInputStream");
}

#[test]
fn upcast_keeps_the_object() {
    let mut rt = world();
    let ptr = rt.new_object(FileInputStream::get_type()).unwrap();
    let stream: FileInputStream = wrap::from_raw(ptr);
    let as_stream: &InputStream = stream.upcast();
    assert_eq!(as_stream.as_ptr(), ptr);
    let as_object: &Object = stream.upcast();
    assert_eq!(as_object.as_ptr(), ptr);
    let as_itself: &FileInputStream = stream.upcast();
    assert_eq!(as_itself.as_ptr(), ptr);
    assert_eq!(stream.as_gobject_object().as_ptr(), ptr);
    let instance: &TypeInstance = as_object.upcast();
    assert_eq!(instance.as_ptr(), ptr);
}

#[test]
fn as_file() {
    let mut rt = world();
    let f = new_file(&mut rt);
    let g: &File = f.deref().upcast();
    assert_eq!(g.as_ptr(), f.as_ptr());
}

#[test]
fn deref() {
    let mut rt = world();
    let ptr = rt.new_object(File::get_type()).unwrap();
    let f: Ref<File> = Ref::from_raw(ptr);
    assert_eq!(f.deref().as_ptr(), ptr);
    assert_eq!(f.deref().as_mut_ptr(), ptr);
}

#[test]
fn test_gio_new_ref() {
    let mut rt = world();
    let f = new_file(&mut rt);
    let g = Ref::new(&mut rt, f.deref());
    assert_eq!(g.deref().as_ptr(), f.as_ptr());
}

#[test]
fn test_gio_clone() {
    let mut rt = world();
    let rf = new_file(&mut rt);
    let rg = rf.clone(&mut rt);
    assert_eq!(rg.deref().as_ptr(), rf.as_ptr());
}

#[test]
fn grust_proof_new_ref() {
    let mut rt = world();
    let f = new_file(&mut rt);
    let g = Ref::new(&mut rt, f.borrow().deref());
    assert_eq!(g.borrow().deref().as_ptr(), f.as_ptr());
    assert_eq!(rt.ref_count(f.as_ptr()), 2);
}

#[test]
fn grust_proof_clone() {
    let mut rt = world();
    let rf = new_file(&mut rt);
    let rg = rf.clone(&mut rt);
    let g = rg.borrow();
    assert_eq!(g.deref().as_ptr(), rf.as_ptr());
    assert_eq!(rt.ref_count(rf.as_ptr()), 2);
}

#[test]
fn type_names() {
    let rt = world();
    assert_eq!(File::get_type().name(&rt), Some("GFile".to_string()));
    assert_eq!(rt.g_type_name(InputStream::get_type()), Some(b"GInputStream".to_vec()));
    assert_eq!(GType::new(gtype::INVALID).name(&rt), None);
    assert_eq!(GType::new(259 << 2).name(&rt), None);
}

#[test]
fn raw_pointers() {
    assert!(RawPtr::null().is_null());
    assert!(!RawPtr { addr: 8 }.is_null());
    let object: Object = wrap::from_raw(RawPtr { addr: 8 });
    assert_eq!(object.as_ptr(), RawPtr { addr: 8 });
}

#[test]
fn heap_refuses_what_it_does_not_know() {
    let mut rt = world();
    assert!(rt.register_type(b"Nothing", GType::new(gtype::INVALID)).is_none());
    assert!(rt.register_type(b"Void", GType::new(gtype::NONE)).is_none());
    assert!(rt.new_object(GType::new(gtype::OBJECT)).is_none());
    assert!(rt.new_object(GType::new(259 << 2)).is_none());
    assert_eq!(rt.ref_count(RawPtr::null()), 0);
    assert_eq!(rt.ref_count(RawPtr { addr: 1000 }), 0);
}
