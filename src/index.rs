//! The type index: every message and enum node of the descriptor set in
//! one arena, grouped by package.
use vstd::prelude::*;
use crate::as_i32;
use crate::comments::Location;
use crate::descriptor::{FileDescriptor, GeneratorRequest, MessageDescriptor};
use crate::error::DocError;
use crate::proto::{
    enum_view, flatten_message, message_nodes, message_ok, path_of, types_view, EnumType, Types,
    TypesView,
};

verus! {

/// Ghost view of a package bucket.
pub struct PackageView {
    pub name: Seq<char>,
    pub members: Seq<usize>,
}

/// Ghost view of the index.
pub struct IndexView {
    pub types: Seq<TypesView>,
    pub packages: Seq<PackageView>,
}

/// One package and the positions of its nodes in the arena, in the order
/// in which they were added.
pub struct Package {
    pub name: String,
    pub members: Vec<usize>,
}

impl View for Package {
    type V = PackageView;

    open spec fn view(&self) -> PackageView {
        PackageView { name: self.name@, members: self.members@ }
    }
}

/// Maps from package name to all included enum and message types. A node is
/// addressed by its position in `types`.
pub struct TypeIndex {
    pub types: Vec<Types>,
    pub packages: Vec<Package>,
}

impl View for TypeIndex {
    type V = IndexView;

    open spec fn view(&self) -> IndexView {
        IndexView {
            types: types_view(self.types@),
            packages: self.packages@.map_values(|p: Package| p@),
        }
    }
}

/// Every member of every package addresses a node of the arena.
pub open spec fn index_wf(ix: IndexView) -> bool {
    forall|p: int, k: int|
        0 <= p < ix.packages.len() && 0 <= k < ix.packages[p].members.len() ==> #[trigger] ix.packages[p].members[k]
            < ix.types.len()
}

/// `p` is the first package named `name`.
pub open spec fn is_first_package(ps: Seq<PackageView>, name: Seq<char>, p: int) -> bool {
    &&& 0 <= p < ps.len()
    &&& ps[p].name == name
    &&& forall|q: int| 0 <= q < p ==> ps[q].name != name
}

/// The position of the first package named `name`.
pub open spec fn package_position(ps: Seq<PackageView>, name: Seq<char>) -> Option<int> {
    if exists|p: int| is_first_package(ps, name, p) {
        Some(choose|p: int| is_first_package(ps, name, p))
    } else {
        None
    }
}

/// The comment table of a file, empty when it has none.
pub open spec fn file_locs(f: FileDescriptor) -> Seq<Location> {
    match f.source_info {
        Some(info) => info.location@,
        None => Seq::empty(),
    }
}

/// The nodes of the first `k` top-level messages, each at path `[4, i]`.
pub open spec fn top_nodes(ms: Seq<MessageDescriptor>, k: nat, locs: Seq<Location>) -> Seq<TypesView>
    decreases k,
{
    if k == 0 || k > ms.len() {
        Seq::empty()
    } else {
        top_nodes(ms, (k - 1) as nat, locs) + message_nodes(
            ms[k - 1],
            seq![4i32, #[verifier::truncate] ((k - 1) as i32)],
            0,
            locs,
        )
    }
}

/// The nodes a file contributes: its messages flattened, then its enums.
pub open spec fn file_nodes(f: FileDescriptor) -> Seq<TypesView> {
    let locs = file_locs(f);
    top_nodes(f.messages@, f.messages@.len(), locs) + Seq::new(
        f.enums@.len(),
        |i: int| TypesView::Enum(enum_view(f.enums@[i], seq![5i32, #[verifier::truncate] (i as i32)], locs)),
    )
}

/// Adds `nodes` to the arena and their positions to the bucket of `pkg`,
/// which is created when there is none.
pub open spec fn add_nodes(ix: IndexView, pkg: Seq<char>, nodes: Seq<TypesView>) -> IndexView {
    let fresh = Seq::new(nodes.len(), |k: int| (ix.types.len() + k) as usize);
    IndexView {
        types: ix.types + nodes,
        packages: match package_position(ix.packages, pkg) {
            Some(p) => ix.packages.update(
                p,
                PackageView { name: ix.packages[p].name, members: ix.packages[p].members + fresh },
            ),
            None => ix.packages.push(PackageView { name: pkg, members: fresh }),
        },
    }
}

/// The index of a sequence of files, taken in order.
pub open spec fn index_of(files: Seq<FileDescriptor>) -> IndexView
    decreases files.len(),
{
    if files.len() == 0 {
        IndexView { types: Seq::empty(), packages: Seq::empty() }
    } else {
        add_nodes(index_of(files.drop_last()), files.last().package@, file_nodes(files.last()))
    }
}

/// Every file carries a comment table.
pub open spec fn all_have_info(files: Seq<FileDescriptor>) -> bool {
    forall|i: int| 0 <= i < files.len() ==> (#[trigger] files[i]).source_info is Some
}

/// Every type reference in every message of every file can be split.
pub open spec fn all_messages_ok(files: Seq<FileDescriptor>) -> bool {
    forall|i: int, j: int|
        0 <= i < files.len() && 0 <= j < files[i].messages@.len() ==> message_ok(
            #[trigger] files[i].messages@[j],
        )
}

/// The position of the first package named `name`, searched linearly.
pub fn find_package(packages: &Vec<Package>, name: &String) -> (r: Option<usize>)
    ensures
        match r {
            Some(p) => package_position(packages@.map_values(|p: Package| p@), name@) == Some(p as int),
            None => package_position(packages@.map_values(|p: Package| p@), name@) is None,
        },
{
    let ghost ps = packages@.map_values(|p: Package| p@);
    let mut i: usize = 0;
    while i < packages.len()
        invariant
            i <= packages.len(),
            ps == packages@.map_values(|p: Package| p@),
            forall|q: int| 0 <= q < i ==> ps[q].name != name@,
        decreases packages.len() - i,
    {
        if packages[i].name == *name {
            assert(is_first_package(ps, name@, i as int));
            assert forall|p: int| is_first_package(ps, name@, p) implies p == i by {
                if p < i {
                    assert(ps[p].name != name@);
                } else if p > i {
                    assert(ps[i as int].name != name@);
                }
            }
            return Some(i);
        }
        i = i + 1;
    }
    assert(!exists|p: int| is_first_package(ps, name@, p));
    None
}

/// Adds the arena positions `start..ix.types.len()` to the bucket of
/// `package`, creating the bucket when there is none.
fn add_members(ix: &mut TypeIndex, package: &String, start: usize)
    requires
        start <= old(ix).types@.len(),
        index_wf(old(ix)@),
    ensures
        final(ix).types@ == old(ix).types@,
        final(ix)@.packages == add_nodes(
            IndexView { types: old(ix)@.types.subrange(0, start as int), packages: old(ix)@.packages },
            package@,
            old(ix)@.types.subrange(start as int, old(ix)@.types.len() as int),
        ).packages,
        index_wf(final(ix)@),
{
    let end = ix.types.len();
    let ghost fresh = Seq::new((end - start) as nat, |k: int| (start + k) as usize);
    let p: Option<usize> = find_package(&ix.packages, package);
    let mut bucket: Package = match p {
        Some(at) => ix.packages.remove(at),
        None => Package { name: package.clone(), members: Vec::new() },
    };
    let ghost base = bucket.members@;
    let mut j: usize = start;
    while j < end
        invariant
            start <= j <= end,
            end == ix.types@.len(),
            fresh == Seq::new((end - start) as nat, |k: int| (start + k) as usize),
            bucket.members@ == base + fresh.subrange(0, (j - start) as int),
            bucket.name@ == (match p { Some(at) => old(ix)@.packages[at as int].name, None => package@ }),
        decreases end - j,
    {
        bucket.members.push(j);
        j = j + 1;
        assert(bucket.members@ =~= base + fresh.subrange(0, (j - start) as int));
    }
    assert(fresh.subrange(0, (end - start) as int) =~= fresh);
    match p {
        Some(at) => ix.packages.insert(at, bucket),
        None => ix.packages.push(bucket),
    }
    let ghost expect = add_nodes(
        IndexView { types: old(ix)@.types.subrange(0, start as int), packages: old(ix)@.packages },
        package@,
        old(ix)@.types.subrange(start as int, old(ix)@.types.len() as int),
    ).packages;
    assert(ix@.packages =~= expect);
}


/// Return all message and enum types of all compiled protos, grouped by
/// package: the files in order, each contributing its messages (each
/// followed by the messages and enums declared inside it) and then its
/// top-level enums.
pub fn get_types(request: &GeneratorRequest) -> (r: Result<TypeIndex, DocError>)
    ensures
        r is Ok <==> all_have_info(request.files@) && all_messages_ok(request.files@),
        r matches Ok(ix) ==> ix@ == index_of(request.files@) && index_wf(ix@),
        r matches Err(e) ==> (e is MissingSourceInfo <==> !all_have_info(request.files@)),
        r matches Err(e) ==> (e is MissingSourceInfo || e is MalformedTypeReference),
{
    let ghost files = request.files@;
    let mut i: usize = 0;
    while i < request.files.len()
        invariant
            i <= files.len(),
            files == request.files@,
            forall|k: int| 0 <= k < i ==> (#[trigger] files[k]).source_info is Some,
        decreases files.len() - i,
    {
        if request.files[i].source_info.is_none() {
            return Err(DocError::MissingSourceInfo);
        }
        i = i + 1;
    }
    let mut ix = TypeIndex { types: Vec::new(), packages: Vec::new() };
    let mut i: usize = 0;
    assert(files.subrange(0, 0) =~= Seq::<FileDescriptor>::empty());
    assert(ix@.packages =~= Seq::<PackageView>::empty());
    assert(ix@.types =~= Seq::<TypesView>::empty());
    while i < request.files.len()
        invariant
            i <= files.len(),
            files == request.files@,
            all_have_info(files),
            ix@ == index_of(files.subrange(0, i as int)),
            index_wf(ix@),
            all_messages_ok(files.subrange(0, i as int)),
        decreases files.len() - i,
    {
        let f = &request.files[i];
        let info = match &f.source_info {
            Some(info) => info,
            None => {
                assert(files[i as int].source_info is Some);
                return Err(DocError::MissingSourceInfo);
            },
        };
        let ghost locs = info.location@;
        let ghost old_ix = ix@;
        let start = ix.types.len();
        let mut j: usize = 0;
        while j < f.messages.len()
            invariant
                j <= f.messages@.len(),
                i < files.len(),
                files == request.files@,
                *f == files[i as int],
                all_have_info(files),
                start == old_ix.types.len(),
                locs == file_locs(*f),
                locs == info.location@,
                types_view(ix.types@) == old_ix.types + top_nodes(f.messages@, j as nat, locs),
                ix.packages@.map_values(|p: Package| p@) == old_ix.packages,
                forall|k: int| 0 <= k < j ==> message_ok(#[trigger] f.messages@[k]),
            decreases f.messages@.len() - j,
        {
            let path = path_of(4, as_i32(j));
            match flatten_message(&f.messages[j], &path, 0, info, &mut ix.types) {
                Ok(()) => {},
                Err(e) => {
                    assert(!all_messages_ok(files)) by {
                        assert(files[i as int] == *f);
                        assert(!message_ok(files[i as int].messages@[j as int]));
                    }
                    return Err(e);
                },
            }
            j = j + 1;
            assert(types_view(ix.types@) =~= old_ix.types + top_nodes(f.messages@, j as nat, locs));
        }
        let ghost after_messages = types_view(ix.types@);
        let mut j: usize = 0;
        while j < f.enums.len()
            invariant
                j <= f.enums@.len(),
                i < files.len(),
                files == request.files@,
                *f == files[i as int],
                all_have_info(files),
                start == old_ix.types.len(),
                locs == file_locs(*f),
                locs == info.location@,
                types_view(ix.types@) == after_messages + Seq::new(
                    j as nat,
                    |k: int| TypesView::Enum(enum_view(f.enums@[k], seq![5i32, #[verifier::truncate] (k as i32)], locs)),
                ),
                after_messages == old_ix.types + top_nodes(f.messages@, f.messages@.len(), locs),
                ix.packages@.map_values(|p: Package| p@) == old_ix.packages,
            decreases f.enums@.len() - j,
        {
            let idx = as_i32(j);
            assert(idx == #[verifier::truncate] ((j as int) as i32));
            let enum_path = path_of(5, idx);
            let node = EnumType::from(&f.enums[j], &enum_path, info);
            let ghost tv = types_view(ix.types@);
            let ghost nv = TypesView::Enum(node@);
            ix.types.push(Types::Enum(node));
            assert(types_view(ix.types@) =~= tv.push(nv));
            assert(nv == TypesView::Enum(enum_view(f.enums@[j as int], seq![5i32, #[verifier::truncate] ((j as int) as i32)], locs)));
            j = j + 1;
            assert(types_view(ix.types@) =~= after_messages + Seq::new(
                j as nat,
                |k: int| TypesView::Enum(enum_view(f.enums@[k], seq![5i32, #[verifier::truncate] (k as i32)], locs)),
            ));
        }
        assert(types_view(ix.types@) =~= old_ix.types + file_nodes(*f));
        assert(types_view(ix.types@).subrange(0, start as int) =~= old_ix.types);
        assert(types_view(ix.types@).subrange(start as int, ix.types@.len() as int) =~= file_nodes(*f));
        add_members(&mut ix, &f.package, start);
        proof {
            let prefix = files.subrange(0, i as int + 1);
            assert(prefix.drop_last() =~= files.subrange(0, i as int));
            assert(prefix.last() == *f);
            assert(ix@ =~= index_of(prefix));
            assert forall|a: int, b: int|
                0 <= a < prefix.len() && 0 <= b < prefix[a].messages@.len() implies message_ok(
                #[trigger] prefix[a].messages@[b],
            ) by {
                if a < i {
                    assert(prefix[a] == files.subrange(0, i as int)[a]);
                }
            }
        }
        i = i + 1;
    }
    assert(files.subrange(0, i as int) =~= files);
    Ok(ix)
}

} // verus!
