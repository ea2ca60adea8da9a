//! The symbols of a whole file: classes with their members, calls and included
//! files, from the captures of the symbol queries, and whether a file has to be
//! parsed at all.

use vstd::prelude::*;
use vstd::slice::slice_subrange;
#[allow(unused_imports)]
use vstd::string::StringSliceAdditionalSpecFns;

use super::cpp::{class_of_name, member_of};
#[allow(unused_imports)]
use super::cpp::{class_named, member_at, within};
use crate::hash::content_hash;
#[allow(unused_imports)]
use crate::hash::fingerprint;
use crate::paths::lower_extension_of;
#[allow(unused_imports)]
use crate::paths::lower_extension;
use crate::syntax::SyntaxTree;
#[allow(unused_imports)]
use crate::syntax::NodeView;
use crate::text::{chars_of, copy_opt, is_str, owned, rfind_str, str_eq, string_of};
#[allow(unused_imports)]
use crate::text::{opt_text, rfind, texts, views};
use crate::types::{CallInfo, ClassInfo, InputFile, MemberInfo, ParseData, ParseResult};
#[allow(unused_imports)]
use crate::types::{CallView, ClassView, MemberView};

verus! {

/// A node that a query has captured, and the name of the capture.
#[derive(Debug, Clone)]
pub struct NodeCapture {
    pub name: String,
    pub node: usize,
}

/// What a captured node says.
pub struct NodeCaptureView {
    pub name: Seq<char>,
    pub node: int,
}

impl View for NodeCapture {
    type V = NodeCaptureView;

    open spec fn view(&self) -> NodeCaptureView {
        NodeCaptureView { name: self.name@, node: self.node as int }
    }
}

/// The captured nodes belong to a tree of `n` nodes.
pub open spec fn captures_in(caps: Seq<NodeCapture>, n: int) -> bool {
    forall|i: int| 0 <= i < caps.len() ==> (#[trigger] caps[i]).node < n
}

// ---------------------------------------------------------------------------
// Included files
// ---------------------------------------------------------------------------
/// The text without the character at its start.
pub open spec fn without_leading(s: Seq<char>, c: char) -> Seq<char>
    decreases s.len(),
{
    if s.len() > 0 && s[0] == c {
        without_leading(s.skip(1), c)
    } else {
        s
    }
}

/// The text without the character at its end.
pub open spec fn without_trailing(s: Seq<char>, c: char) -> Seq<char>
    decreases s.len(),
{
    if s.len() > 0 && s.last() == c {
        without_trailing(s.drop_last(), c)
    } else {
        s
    }
}

/// The text without the character at both ends.
pub open spec fn without_char(s: Seq<char>, c: char) -> Seq<char> {
    without_trailing(without_leading(s, c), c)
}

/// The path that a directive names, without quotes and angle brackets.
pub open spec fn directive_path(s: Seq<char>) -> Seq<char> {
    without_char(without_char(without_char(s, '"'), '<'), '>')
}

/// The text without the character at both ends.
pub fn trim_char(s: &[char], c: char) -> (r: &[char])
    ensures
        r@ == without_char(s@, c),
{
    let mut a: usize = 0;
    assert(s@.skip(0) =~= s@);
    while a < s.len() && s[a] == c
        invariant
            a <= s@.len(),
            without_leading(s@, c) == without_leading(s@.skip(a as int), c),
        decreases s.len() - a,
    {
        assert(s@.skip(a as int).skip(1) =~= s@.skip(a + 1));
        a = a + 1;
    }
    assert(s@.subrange(a as int, s@.len() as int) =~= s@.skip(a as int));
    let t = slice_subrange(s, a, s.len());
    let mut n: usize = t.len();
    assert(t@.take(n as int) =~= t@);
    while n > 0 && t[n - 1] == c
        invariant
            n <= t@.len(),
            without_trailing(t@, c) == without_trailing(t@.take(n as int), c),
        decreases n,
    {
        assert(t@.take(n as int).drop_last() =~= t@.take(n - 1));
        n = n - 1;
    }
    assert(t@.subrange(0, n as int) =~= t@.take(n as int));
    slice_subrange(t, 0, n)
}

/// The paths that the first `n` captures name, those that are empty left out.
pub open spec fn directive_paths(ns: Seq<NodeView>, caps: Seq<NodeCaptureView>, n: int) -> Seq<
    Seq<char>,
>
    decreases n,
{
    if n <= 0 {
        seq![]
    } else {
        let before = directive_paths(ns, caps, n - 1);
        let c = caps[n - 1];
        if c.name == "path"@ && directive_path(ns[c.node].text).len() > 0 {
            before.push(directive_path(ns[c.node].text))
        } else {
            before
        }
    }
}

/// The paths that the captures of the directives name.
pub fn collect_includes(tree: &SyntaxTree, caps: &Vec<NodeCapture>) -> (r: Vec<String>)
    requires
        captures_in(caps@, tree@.len() as int),
    ensures
        texts(r@) == directive_paths(tree@, views(caps@), caps@.len() as int),
{
    let mut out: Vec<String> = Vec::new();
    let ghost all = views(caps@);
    assert(texts(out@) =~= Seq::<Seq<char>>::empty());
    let mut i: usize = 0;
    while i < caps.len()
        invariant
            i <= caps@.len(),
            all == views(caps@),
            captures_in(caps@, tree@.len() as int),
            texts(out@) == directive_paths(tree@, all, i as int),
        decreases caps.len() - i,
    {
        assert(all[i as int] == caps@[i as int]@);
        assert(caps@[i as int].node < tree@.len());
        if str_eq(caps[i].name.as_str(), "path") {
            let v = chars_of(tree.text(caps[i].node));
            let p = trim_char(trim_char(trim_char(v.as_slice(), '"'), '<'), '>');
            if p.len() > 0 {
                let ghost before = texts(out@);
                out.push(string_of(p));
                assert(texts(out@) =~= before.push(p@));
            }
        }
        i = i + 1;
    }
    out
}

// ---------------------------------------------------------------------------
// One capture after the other
// ---------------------------------------------------------------------------
/// A member that waits for its class, and the bytes that it spans.
pub struct PendingMember {
    pub member: MemberInfo,
    pub start: usize,
    pub end: usize,
}

/// What a waiting member says.
pub struct PendingView {
    pub member: MemberView,
    pub start: usize,
    pub end: usize,
}

impl View for PendingMember {
    type V = PendingView;

    open spec fn view(&self) -> PendingView {
        PendingView { member: self.member@, start: self.start, end: self.end }
    }
}

/// What the captures so far have yielded.
pub struct Symbols {
    pub classes: Vec<ClassInfo>,
    pub calls: Vec<CallInfo>,
    pub pending: Vec<PendingMember>,
}

/// What the symbols say.
pub struct SymbolsView {
    pub classes: Seq<ClassView>,
    pub calls: Seq<CallView>,
    pub pending: Seq<PendingView>,
}

impl View for Symbols {
    type V = SymbolsView;

    open spec fn view(&self) -> SymbolsView {
        SymbolsView {
            classes: views(self.classes@),
            calls: views(self.calls@),
            pending: views(self.pending@),
        }
    }
}

/// The class with one more member.
pub open spec fn with_member(c: ClassView, m: MemberView) -> ClassView {
    ClassView { members: c.members.push(m), ..c }
}

/// The first class of the name among those from `i` on.
pub open spec fn class_index(classes: Seq<ClassView>, name: Seq<char>, i: int) -> Option<int>
    decreases classes.len() - i,
{
    if i < 0 || i >= classes.len() {
        None
    } else if classes[i].class_name == name {
        Some(i)
    } else {
        class_index(classes, name, i + 1)
    }
}

/// The class that stands for a scope of which only implementations are seen. It
/// spans the whole file.
pub open spec fn scope_class(name: Seq<char>) -> ClassView {
    ClassView {
        class_name: name,
        namespace: None,
        base_classes: seq![],
        symbol_type: "class"@,
        line: 1,
        end_line: usize::MAX,
        range_start: 0,
        range_end: usize::MAX,
        members: seq![],
        is_final: false,
        is_interface: false,
    }
}

/// The classes once the implementation of a member has been added to its scope.
pub open spec fn with_implementation(
    classes: Seq<ClassView>,
    scope: Seq<char>,
    m: MemberView,
) -> Seq<ClassView> {
    match class_index(classes, scope, 0) {
        Some(k) => classes.update(k, with_member(classes[k], m)),
        None => classes.push(with_member(scope_class(scope), m)),
    }
}

/// The name behind the last `::`.
pub open spec fn base_name(s: Seq<char>) -> Seq<char> {
    match rfind(s, "::"@) {
        Some(i) => s.skip(i + 2),
        None => s,
    }
}

/// The classes once the last of them has been given the base class that node `i`
/// names, if the node lies in it and names another class.
pub open spec fn with_base(classes: Seq<ClassView>, ns: Seq<NodeView>, i: int) -> Seq<ClassView> {
    if classes.len() == 0 {
        classes
    } else {
        let c = classes.last();
        let at = ns[i].start_byte;
        let name = base_name(ns[i].text);
        if at < c.range_start || at > c.range_end || name.len() == 0 || name == c.class_name {
            classes
        } else {
            classes.update(
                classes.len() - 1,
                ClassView { base_classes: c.base_classes.push(name), ..c },
            )
        }
    }
}

/// The member that an enumerator is.
pub open spec fn enum_item(n: NodeView) -> MemberView {
    MemberView {
        name: n.text,
        mem_type: "enum_item"@,
        flags: ""@,
        access: "public"@,
        line: n.start_row.wrapping_add(1),
        end_line: n.end_row.wrapping_add(1),
        detail: None,
        return_type: None,
    }
}

/// The captures of nodes that declare members.
pub open spec fn member_capture(name: Seq<char>) -> bool {
    name == "func_node"@ || name == "decl_node"@ || name == "ufunc_node"@ || name == "field_node"@
}

/// What one more capture adds.
pub open spec fn symbols_step(
    st: SymbolsView,
    ns: Seq<NodeView>,
    src: Seq<u8>,
    c: NodeCaptureView,
) -> SymbolsView {
    let n = ns[c.node];
    if c.name == "call_name"@ {
        if n.text.len() == 0 {
            st
        } else {
            SymbolsView {
                calls: st.calls.push(
                    CallView { name: n.text, line: n.start_row.wrapping_add(1) },
                ),
                ..st
            }
        }
    } else if c.name == "class_name"@ || c.name == "struct_name"@ || c.name == "enum_name"@ {
        match class_named(ns, c.node, c.name) {
            Some(k) => SymbolsView { classes: st.classes.push(k), ..st },
            None => st,
        }
    } else if c.name == "base_class_name"@ {
        SymbolsView { classes: with_base(st.classes, ns, c.node), ..st }
    } else if member_capture(c.name) {
        match member_at(ns, src, c.node, c.name) {
            None => st,
            Some((m, scope)) => match scope {
                Some(s) => SymbolsView { classes: with_implementation(st.classes, s, m), ..st },
                None => SymbolsView {
                    pending: st.pending.push(
                        PendingView { member: m, start: n.start_byte, end: n.end_byte },
                    ),
                    ..st
                },
            },
        }
    } else if c.name == "enum_val_name"@ {
        SymbolsView {
            pending: st.pending.push(
                PendingView { member: enum_item(n), start: n.start_byte, end: n.end_byte },
            ),
            ..st
        }
    } else {
        st
    }
}

/// What the first `n` captures yield.
pub open spec fn symbols_after(
    ns: Seq<NodeView>,
    src: Seq<u8>,
    caps: Seq<NodeCaptureView>,
    n: int,
) -> SymbolsView
    decreases n,
{
    if n <= 0 {
        SymbolsView { classes: seq![], calls: seq![], pending: seq![] }
    } else {
        symbols_step(symbols_after(ns, src, caps, n - 1), ns, src, caps[n - 1])
    }
}

/// Gives class `k` one more member.
fn push_member(classes: &mut Vec<ClassInfo>, k: usize, m: MemberInfo)
    requires
        k < old(classes)@.len(),
    ensures
        views(final(classes)@) == views(old(classes)@).update(
            k as int,
            with_member(views(old(classes)@)[k as int], m@),
        ),
{
    let ghost all = views(classes@);
    let ghost mv = m@;
    let mut c = classes.remove(k);
    let ghost members = views(c.members@);
    c.members.push(m);
    assert(views(c.members@) =~= members.push(mv));
    assert(c@ == with_member(all[k as int], mv));
    classes.insert(k, c);
    assert(views(classes@) =~= all.update(k as int, with_member(all[k as int], mv)));
}

/// Adds the implementation of a member to the class of its scope.
fn add_implementation(classes: &mut Vec<ClassInfo>, scope: &str, m: MemberInfo)
    ensures
        views(final(classes)@) == with_implementation(views(old(classes)@), scope@, m@),
{
    let ghost all = views(classes@);
    let ghost mv = m@;
    let mut k: usize = 0;
    while k < classes.len() && !str_eq(classes[k].class_name.as_str(), scope)
        invariant
            k <= classes@.len(),
            *classes == *old(classes),
            all == views(classes@),
            class_index(all, scope@, 0) == class_index(all, scope@, k as int),
        decreases classes.len() - k,
    {
        assert(all[k as int] == classes@[k as int]@);
        k = k + 1;
    }
    if k < classes.len() {
        assert(all[k as int] == classes@[k as int]@);
        push_member(classes, k, m);
    } else {
        let mut members: Vec<MemberInfo> = Vec::new();
        members.push(m);
        let c = ClassInfo {
            class_name: owned(scope),
            namespace: None,
            base_classes: Vec::new(),
            symbol_type: owned("class"),
            line: 1,
            end_line: usize::MAX,
            range_start: 0,
            range_end: usize::MAX,
            members,
            is_final: false,
            is_interface: false,
        };
        assert(c@.members =~= scope_class(scope@).members.push(mv));
        assert(c@.base_classes =~= seq![]);
        assert(c@ == with_member(scope_class(scope@), mv));
        classes.push(c);
        assert(views(classes@) =~= all.push(c@));
    }
}

/// Gives the last class the base class that node `i` names.
fn add_base_class(classes: &mut Vec<ClassInfo>, tree: &SyntaxTree, i: usize)
    requires
        i < tree@.len(),
    ensures
        views(final(classes)@) == with_base(views(old(classes)@), tree@, i as int),
{
    if classes.len() == 0 {
        return;
    }
    let ghost all = views(classes@);
    let last: usize = classes.len() - 1;
    assert(all[last as int] == classes@[last as int]@);
    let at: usize = tree.nodes[i].start_byte;
    assert(tree@[i as int].start_byte == at);
    if at < classes[last].range_start || at > classes[last].range_end {
        return;
    }
    let v = chars_of(tree.text(i));
    proof {
        reveal_strlit("::");
    }
    let name = match rfind_str(v.as_slice(), "::") {
        Some(k) => {
            assert(v@.subrange(k + 2, v@.len() as int) =~= v@.skip(k + 2));
            string_of(slice_subrange(v.as_slice(), k + 2, v.len()))
        },
        None => string_of(v.as_slice()),
    };
    let nv = chars_of(name.as_str());
    if nv.len() == 0 || str_eq(name.as_str(), classes[last].class_name.as_str()) {
        return;
    }
    let ghost name_view = name@;
    let mut c = classes.remove(last);
    let ghost bases = texts(c.base_classes@);
    c.base_classes.push(name);
    assert(texts(c.base_classes@) =~= bases.push(name_view));
    classes.push(c);
    assert(views(classes@) =~= all.update(last as int, c@));
}

impl Symbols {
    /// What one more capture adds.
    pub fn add_capture(&mut self, tree: &SyntaxTree, src: &[u8], c: &NodeCapture)
        requires
            c.node < tree@.len(),
            within(tree@, src@.len() as int),
        ensures
            final(self)@ == symbols_step(old(self)@, tree@, src@, c@),
    {
        let i: usize = c.node;
        let cap = c.name.as_str();
        assert(tree@[i as int].start_row == tree.nodes@[i as int].start_row);
        assert(tree@[i as int].end_row == tree.nodes@[i as int].end_row);
        assert(tree@[i as int].start_byte == tree.nodes@[i as int].start_byte);
        assert(tree@[i as int].end_byte == tree.nodes@[i as int].end_byte);
        let ghost st = self@;
        if str_eq(cap, "call_name") {
            let name = owned(tree.text(i));
            let v = chars_of(name.as_str());
            if v.len() > 0 {
                let call = CallInfo { name, line: tree.nodes[i].start_row.wrapping_add(1) };
                self.calls.push(call);
                assert(views(self.calls@) =~= st.calls.push(call@));
            }
        } else if str_eq(cap, "class_name") || str_eq(cap, "struct_name") || str_eq(
            cap,
            "enum_name",
        ) {
            match class_of_name(tree, i, cap) {
                Some(k) => {
                    self.classes.push(k);
                    assert(views(self.classes@) =~= st.classes.push(k@));
                },
                None => {},
            }
        } else if str_eq(cap, "base_class_name") {
            add_base_class(&mut self.classes, tree, i);
        } else if str_eq(cap, "func_node") || str_eq(cap, "decl_node") || str_eq(cap, "ufunc_node")
            || str_eq(cap, "field_node") {
            match member_of(tree, src, i, cap) {
                None => {},
                Some((m, scope)) => match scope {
                    Some(s) => {
                        add_implementation(&mut self.classes, s.as_str(), m);
                    },
                    None => {
                        let p = PendingMember {
                            member: m,
                            start: tree.nodes[i].start_byte,
                            end: tree.nodes[i].end_byte,
                        };
                        self.pending.push(p);
                        assert(views(self.pending@) =~= st.pending.push(p@));
                    },
                },
            }
        } else if str_eq(cap, "enum_val_name") {
            let m = MemberInfo {
                name: owned(tree.text(i)),
                mem_type: owned("enum_item"),
                flags: owned(""),
                access: owned("public"),
                line: tree.nodes[i].start_row.wrapping_add(1),
                end_line: tree.nodes[i].end_row.wrapping_add(1),
                detail: None,
                return_type: None,
            };
            let p = PendingMember {
                member: m,
                start: tree.nodes[i].start_byte,
                end: tree.nodes[i].end_byte,
            };
            self.pending.push(p);
            assert(views(self.pending@) =~= st.pending.push(p@));
        }
    }
}

/// What all captures yield.
pub fn collect_symbols(tree: &SyntaxTree, src: &[u8], caps: &Vec<NodeCapture>) -> (r: Symbols)
    requires
        captures_in(caps@, tree@.len() as int),
        within(tree@, src@.len() as int),
    ensures
        r@ == symbols_after(tree@, src@, views(caps@), caps@.len() as int),
{
    let mut st = Symbols { classes: Vec::new(), calls: Vec::new(), pending: Vec::new() };
    let ghost all = views(caps@);
    assert(st@.classes =~= seq![]);
    assert(st@.calls =~= seq![]);
    assert(st@.pending =~= seq![]);
    let mut i: usize = 0;
    while i < caps.len()
        invariant
            i <= caps@.len(),
            all == views(caps@),
            captures_in(caps@, tree@.len() as int),
            within(tree@, src@.len() as int),
            st@ == symbols_after(tree@, src@, all, i as int),
        decreases caps.len() - i,
    {
        assert(all[i as int] == caps@[i as int]@);
        assert(caps@[i as int].node < tree@.len());
        st.add_capture(tree, src, &caps[i]);
        i = i + 1;
    }
    st
}

// ---------------------------------------------------------------------------
// Members into classes
// ---------------------------------------------------------------------------
/// The class spans the bytes of the member.
pub open spec fn holds(c: ClassView, p: PendingView) -> bool {
    p.start >= c.range_start && p.end <= c.range_end
}

/// How many bytes a class spans.
pub open spec fn span(c: ClassView) -> int {
    c.range_end - c.range_start
}

/// The class among the first `n` that spans the fewest bytes of those that hold
/// the member, the first where several do.
pub open spec fn smallest(classes: Seq<ClassView>, p: PendingView, n: int) -> Option<int>
    decreases n,
{
    if n <= 0 {
        None
    } else {
        let before = smallest(classes, p, n - 1);
        if !holds(classes[n - 1], p) {
            before
        } else {
            match before {
                Some(k) => if span(classes[n - 1]) < span(classes[k]) {
                    Some(n - 1)
                } else {
                    before
                },
                None => Some(n - 1),
            }
        }
    }
}

/// A member goes to a class that holds it, and no class that holds it is
/// smaller; it goes nowhere only where no class holds it.
pub proof fn law_smallest(classes: Seq<ClassView>, p: PendingView, n: int)
    requires
        0 <= n <= classes.len(),
    ensures
        match smallest(classes, p, n) {
            Some(k) => 0 <= k < n && holds(classes[k], p) && forall|i: int|
                0 <= i < n && holds(#[trigger] classes[i], p) ==> span(classes[k]) <= span(
                    classes[i],
                ),
            None => forall|i: int| 0 <= i < n ==> !holds(#[trigger] classes[i], p),
        },
    decreases n,
{
    if n > 0 {
        law_smallest(classes, p, n - 1);
    }
}

/// The classes once the first `n` of the waiting members have found theirs.
pub open spec fn attached(classes: Seq<ClassView>, pending: Seq<PendingView>, n: int) -> Seq<
    ClassView,
>
    decreases n,
{
    if n <= 0 {
        classes
    } else {
        let before = attached(classes, pending, n - 1);
        match smallest(before, pending[n - 1], before.len() as int) {
            Some(k) => before.update(k, with_member(before[k], pending[n - 1].member)),
            None => before,
        }
    }
}

/// Attaching members changes nothing of the classes but their members.
pub proof fn law_attaching_keeps_classes(
    classes: Seq<ClassView>,
    pending: Seq<PendingView>,
    n: int,
    i: int,
)
    requires
        0 <= n <= pending.len(),
        0 <= i < classes.len(),
    ensures
        attached(classes, pending, n).len() == classes.len(),
        attached(classes, pending, n)[i] == (ClassView {
            members: attached(classes, pending, n)[i].members,
            ..classes[i]
        }),
        classes[i].members.is_prefix_of(attached(classes, pending, n)[i].members),
    decreases n,
{
    if n > 0 {
        law_attaching_keeps_classes(classes, pending, n - 1, i);
        let before = attached(classes, pending, n - 1);
        law_smallest(before, pending[n - 1], before.len() as int);
    }
}

/// A copy of a member.
fn copy_member(m: &MemberInfo) -> (r: MemberInfo)
    ensures
        r@ == m@,
{
    MemberInfo {
        name: m.name.clone(),
        mem_type: m.mem_type.clone(),
        flags: m.flags.clone(),
        access: m.access.clone(),
        line: m.line,
        end_line: m.end_line,
        detail: copy_opt(&m.detail),
        return_type: copy_opt(&m.return_type),
    }
}

/// The class that spans the fewest bytes of those that hold the member.
fn find_smallest(classes: &Vec<ClassInfo>, p: &PendingMember) -> (r: Option<usize>)
    ensures
        match r {
            Some(k) => k < classes@.len() && smallest(
                views(classes@),
                p@,
                classes@.len() as int,
            ) == Some(k as int),
            None => smallest(views(classes@), p@, classes@.len() as int) is None,
        },
{
    let ghost all = views(classes@);
    let mut best: Option<usize> = None;
    let mut n: usize = 0;
    while n < classes.len()
        invariant
            n <= classes@.len(),
            all == views(classes@),
            match best {
                Some(k) => k < n && smallest(all, p@, n as int) == Some(k as int),
                None => smallest(all, p@, n as int) is None,
            },
        decreases classes.len() - n,
    {
        assert(all[n as int] == classes@[n as int]@);
        if p.start >= classes[n].range_start && p.end <= classes[n].range_end {
            match best {
                Some(k) => {
                    assert(all[k as int] == classes@[k as int]@);
                    if (classes[n].range_end as i128) - (classes[n].range_start as i128) < (
                    classes[k].range_end as i128) - (classes[k].range_start as i128) {
                        best = Some(n);
                    }
                },
                None => {
                    best = Some(n);
                },
            }
        }
        n = n + 1;
    }
    best
}

/// Gives each waiting member to the smallest class that holds it.
pub fn attach_pending_members(classes: &mut Vec<ClassInfo>, pending: &Vec<PendingMember>)
    ensures
        views(final(classes)@) == attached(
            views(old(classes)@),
            views(pending@),
            pending@.len() as int,
        ),
{
    let ghost start = views(classes@);
    let ghost all = views(pending@);
    let mut i: usize = 0;
    while i < pending.len()
        invariant
            i <= pending@.len(),
            all == views(pending@),
            views(classes@) == attached(start, all, i as int),
        decreases pending.len() - i,
    {
        assert(all[i as int] == pending@[i as int]@);
        match find_smallest(classes, &pending[i]) {
            Some(k) => {
                push_member(classes, k, copy_member(&pending[i].member));
            },
            None => {},
        }
        i = i + 1;
    }
}

// ---------------------------------------------------------------------------
// Files
// ---------------------------------------------------------------------------
/// The symbols of a file.
pub struct ParsedFile {
    pub classes: Vec<ClassInfo>,
    pub calls: Vec<CallInfo>,
    pub includes: Vec<String>,
}

/// What the symbols of a file say.
pub struct ParsedView {
    pub classes: Seq<ClassView>,
    pub calls: Seq<CallView>,
    pub includes: Seq<Seq<char>>,
}

impl View for ParsedFile {
    type V = ParsedView;

    open spec fn view(&self) -> ParsedView {
        ParsedView {
            classes: views(self.classes@),
            calls: views(self.calls@),
            includes: texts(self.includes@),
        }
    }
}

/// The symbols of a file, from the captures of the two queries.
pub open spec fn file_symbols(
    ns: Seq<NodeView>,
    src: Seq<u8>,
    caps: Seq<NodeCaptureView>,
    paths: Seq<NodeCaptureView>,
) -> ParsedView {
    let st = symbols_after(ns, src, caps, caps.len() as int);
    ParsedView {
        classes: attached(st.classes, st.pending, st.pending.len() as int),
        calls: st.calls,
        includes: directive_paths(ns, paths, paths.len() as int),
    }
}

/// The symbols of a file, from its tree and the captures of the two queries.
pub fn parse_content_mmap(
    content: &[u8],
    tree: &SyntaxTree,
    captures: &Vec<NodeCapture>,
    path_captures: &Vec<NodeCapture>,
) -> (r: ParsedFile)
    requires
        captures_in(captures@, tree@.len() as int),
        captures_in(path_captures@, tree@.len() as int),
        within(tree@, content@.len() as int),
    ensures
        r@ == file_symbols(tree@, content@, views(captures@), views(path_captures@)),
{
    let includes = collect_includes(tree, path_captures);
    let st = collect_symbols(tree, content, captures);
    let mut classes = st.classes;
    attach_pending_members(&mut classes, &st.pending);
    ParsedFile { classes, calls: st.calls, includes }
}

/// The symbols of a text, from its tree and the captures of the two queries.
pub fn parse_content(
    content: &str,
    tree: &SyntaxTree,
    captures: &Vec<NodeCapture>,
    path_captures: &Vec<NodeCapture>,
) -> (r: ParsedFile)
    requires
        captures_in(captures@, tree@.len() as int),
        captures_in(path_captures@, tree@.len() as int),
        within(tree@, content.spec_bytes().len() as int),
    ensures
        r@ == file_symbols(
            tree@,
            content.spec_bytes(),
            views(captures@),
            views(path_captures@),
        ),
{
    parse_content_mmap(content.as_bytes(), tree, captures, path_captures)
}

/// The bytes occur at position `i`.
pub open spec fn bytes_at(s: Seq<u8>, p: Seq<u8>, i: int) -> bool {
    0 <= i && i + p.len() <= s.len() && s.subrange(i, i + p.len()) == p
}

/// The bytes occur.
pub open spec fn holds_bytes(s: Seq<u8>, p: Seq<u8>) -> bool {
    exists|i: int| bytes_at(s, p, i)
}

/// Whether the bytes occur.
pub fn contains_bytes(haystack: &[u8], needle: &[u8]) -> (r: bool)
    ensures
        r == holds_bytes(haystack@, needle@),
{
    let mut i: usize = 0;
    while i <= haystack.len() && needle.len() <= haystack.len() - i
        invariant
            i <= haystack.len() + 1,
            forall|j: int| 0 <= j < i ==> !bytes_at(haystack@, needle@, j),
        decreases haystack.len() + 1 - i,
    {
        let mut k: usize = 0;
        while k < needle.len() && haystack[i + k] == needle[k]
            invariant
                k <= needle.len(),
                i + needle.len() <= haystack.len(),
                forall|j: int| 0 <= j < k ==> haystack@[i + j] == needle@[j],
            decreases needle.len() - k,
        {
            k = k + 1;
        }
        if k == needle.len() {
            assert(haystack@.subrange(i as int, i + needle@.len()) =~= needle@);
            assert(bytes_at(haystack@, needle@, i as int));
            return true;
        }
        proof {
            if bytes_at(haystack@, needle@, i as int) {
                assert(haystack@.subrange(i as int, i + needle@.len())[k as int]
                    == needle@[k as int]);
            }
        }
        if i == haystack.len() {
            return false;
        }
        i = i + 1;
    }
    false
}

/// The bytes of the marks that make a header worth parsing.
pub open spec fn header_marks() -> Seq<Seq<u8>> {
    seq![
        "#include".spec_bytes(),
        "UCLASS".spec_bytes(),
        "USTRUCT".spec_bytes(),
        "UENUM".spec_bytes(),
        "UINTERFACE".spec_bytes(),
        "UDELEGATE".spec_bytes(),
        "UFUNCTION".spec_bytes(),
        "UPROPERTY".spec_bytes(),
        "GENERATED_BODY".spec_bytes(),
        "DECLARE_".spec_bytes(),
    ]
}

/// The content holds one of the marks.
pub open spec fn interesting(content: Seq<u8>) -> bool {
    exists|i: int| 0 <= i < header_marks().len() && holds_bytes(content, #[trigger] header_marks()[i])
}

/// Whether a header is worth parsing.
pub fn looks_like_interesting_unreal_header(content: &[u8]) -> (r: bool)
    ensures
        r == interesting(content@),
{
    let marks: Vec<&str> = vec![
        "#include",
        "UCLASS",
        "USTRUCT",
        "UENUM",
        "UINTERFACE",
        "UDELEGATE",
        "UFUNCTION",
        "UPROPERTY",
        "GENERATED_BODY",
        "DECLARE_",
    ];
    assert forall|i: int| 0 <= i < marks@.len() implies (#[trigger] marks@[i]).spec_bytes()
        == header_marks()[i] by {}
    let mut i: usize = 0;
    while i < marks.len()
        invariant
            i <= marks@.len(),
            marks@.len() == header_marks().len(),
            forall|i: int|
                0 <= i < marks@.len() ==> (#[trigger] marks@[i]).spec_bytes() == header_marks()[i],
            forall|j: int|
                0 <= j < i ==> !holds_bytes(content@, #[trigger] header_marks()[j]),
        decreases marks.len() - i,
    {
        if contains_bytes(content, marks[i].as_bytes()) {
            assert(holds_bytes(content@, header_marks()[i as int]));
            return true;
        }
        i = i + 1;
    }
    false
}

/// What has to be done for a file.
pub enum FileStep {
    /// Its content has not changed.
    Unchanged,
    /// It is a header without anything to index.
    Skip { new_hash: String },
    /// It has to be parsed.
    Parse { new_hash: String },
}

/// What the step for a file says.
pub enum StepView {
    Unchanged,
    Skip(Seq<char>),
    Parse(Seq<char>),
}

impl View for FileStep {
    type V = StepView;

    open spec fn view(&self) -> StepView {
        match self {
            FileStep::Unchanged => StepView::Unchanged,
            FileStep::Skip { new_hash } => StepView::Skip(new_hash@),
            FileStep::Parse { new_hash } => StepView::Parse(new_hash@),
        }
    }
}

/// The extension is that of a header.
pub open spec fn header_extension(ext: Option<Seq<char>>) -> bool {
    ext == Some("h"@) || ext == Some("hpp"@) || ext == Some("hh"@) || ext == Some("inl"@)
}

/// What has to be done for a file, given the fingerprint of its content.
pub open spec fn file_step(
    path: Seq<char>,
    windows: bool,
    old_hash: Option<Seq<char>>,
    hash: Seq<char>,
    content: Seq<u8>,
) -> StepView {
    if old_hash == Some(hash) {
        StepView::Unchanged
    } else if header_extension(lower_extension(path, windows)) && !interesting(content) {
        StepView::Skip(hash)
    } else {
        StepView::Parse(hash)
    }
}

/// What has to be done for a file, given the fingerprint of its content.
pub fn step_with_hash(input: &InputFile, windows: bool, hash: String, content: &[u8]) -> (r:
    FileStep)
    ensures
        r@ == file_step(input.path@, windows, opt_text(input.old_hash), hash@, content@),
{
    match &input.old_hash {
        Some(old) => {
            if str_eq(old.as_str(), hash.as_str()) {
                return FileStep::Unchanged;
            }
        },
        None => {},
    }
    let v = chars_of(input.path.as_str());
    let header = match lower_extension_of(v.as_slice(), windows) {
        Some(e) => is_str(e.as_slice(), "h") || is_str(e.as_slice(), "hpp") || is_str(
            e.as_slice(),
            "hh",
        ) || is_str(e.as_slice(), "inl"),
        None => false,
    };
    if header && !looks_like_interesting_unreal_header(content) {
        FileStep::Skip { new_hash: hash }
    } else {
        FileStep::Parse { new_hash: hash }
    }
}

/// What has to be done for a file, from its content.
pub fn plan_file(input: &InputFile, windows: bool, content: &[u8]) -> (r: FileStep)
    ensures
        r@ == file_step(
            input.path@,
            windows,
            opt_text(input.old_hash),
            fingerprint(content@),
            content@,
        ),
{
    let hash = content_hash(content);
    step_with_hash(input, windows, hash, content)
}

/// A file whose fingerprint is the recorded one is not parsed again.
pub proof fn law_unchanged_is_not_parsed(path: Seq<char>, windows: bool, content: Seq<u8>)
    ensures
        file_step(
            path,
            windows,
            Some(fingerprint(content)),
            fingerprint(content),
            content,
        ) == StepView::Unchanged,
{
}

/// The result says that the given file was parsed by the given parser.
pub open spec fn parsed_by(
    r: ParseResult,
    input: InputFile,
    parsed: ParsedView,
    parser: Seq<char>,
    hash: Seq<char>,
) -> bool {
    &&& r.path@ == input.path@
    &&& r.status@ == "parsed"@
    &&& r.mtime == input.mtime
    &&& r.module_id == input.module_id
    &&& r.data matches Some(d) && views(d.classes@) == parsed.classes && views(d.calls@)
        == parsed.calls && texts(d.includes@) == parsed.includes && d.parser@ == parser
        && d.new_hash@ == hash
}

/// The result of one file: nothing new where its content has not changed,
/// nothing to index where it was skipped, else the symbols that were parsed.
pub fn process_file(input: &InputFile, step: FileStep, parsed: ParsedFile) -> (r: ParseResult)
    ensures
        match step@ {
            StepView::Unchanged => {
                &&& r.path@ == input.path@
                &&& r.status@ == "cache_hit"@
                &&& r.mtime == input.mtime
                &&& r.module_id == input.module_id
                &&& r.data is None
            },
            StepView::Skip(hash) => parsed_by(
                r,
                *input,
                ParsedView { classes: seq![], calls: seq![], includes: seq![] },
                "fast-skip"@,
                hash,
            ),
            StepView::Parse(hash) => parsed_by(r, *input, parsed@, "treesitter"@, hash),
        },
{
    match step {
        FileStep::Unchanged => ParseResult {
            path: input.path.clone(),
            status: owned("cache_hit"),
            mtime: input.mtime,
            data: None,
            module_id: input.module_id,
        },
        FileStep::Skip { new_hash } => {
            let d = ParseData {
                classes: Vec::new(),
                calls: Vec::new(),
                includes: Vec::new(),
                parser: owned("fast-skip"),
                new_hash,
            };
            assert(views(d.classes@) =~= seq![]);
            assert(views(d.calls@) =~= seq![]);
            assert(texts(d.includes@) =~= seq![]);
            ParseResult {
                path: input.path.clone(),
                status: owned("parsed"),
                mtime: input.mtime,
                data: Some(d),
                module_id: input.module_id,
            }
        },
        FileStep::Parse { new_hash } => ParseResult {
            path: input.path.clone(),
            status: owned("parsed"),
            mtime: input.mtime,
            data: Some(
                ParseData {
                    classes: parsed.classes,
                    calls: parsed.calls,
                    includes: parsed.includes,
                    parser: owned("treesitter"),
                    new_hash,
                },
            ),
            module_id: input.module_id,
        },
    }
}

} // verus!
