//! The order of decimals, and the range of the numbers that are read from a
//! text.

use vstd::prelude::*;
use crate::decimal::{
    all_digits, canonical_of, digits_value, lemma_canonical_of, lemma_pow10_positive,
    lemma_pow10_sum, lemma_strip_leading, lemma_value_concat, lemma_value_zeros, pow10, Decimal,
    DecimalView,
};

verus! {

/// The coefficient that the decimal `v` has when it is written with the
/// exponent `m`, which is at most its own.
pub open spec fn scaled_to(v: DecimalView, m: int) -> nat {
    v.coefficient() * pow10((v.exponent - m) as nat)
}

/// Whether the number `a` is less than the number `b`: both are written with
/// the lower of their exponents, and the coefficients are compared.
pub open spec fn below(a: DecimalView, b: DecimalView) -> bool {
    let m = if a.exponent <= b.exponent {
        a.exponent
    } else {
        b.exponent
    };
    scaled_to(a, m) < scaled_to(b, m)
}

/// `b` to the power `e`.
pub open spec fn power(b: nat, e: nat) -> nat
    decreases e,
{
    if e == 0 {
        1
    } else {
        b * power(b, (e - 1) as nat)
    }
}

/// The digits of the number `n`, most significant first, without leading
/// zeros; none for zero.
pub open spec fn decimal_digits(n: nat) -> Seq<u8>
    decreases n,
{
    if n == 0 {
        Seq::empty()
    } else {
        decimal_digits(n / 10).push((n % 10) as u8)
    }
}

/// The least number that is too large to be read: two to the power 1024,
/// less two to the power 970. A binary floating-point number of 64 bits that
/// is nearest to this number or to a larger one is infinite.
pub open spec fn finite_limit() -> DecimalView {
    canonical_of(decimal_digits((power(2, 1024) - power(2, 970)) as nat), 0)
}

/// The power of ten by which five to the power 1075 is multiplied in
/// [`positive_limit`].
pub const POSITIVE_EXPONENT: i128 = -1075;

/// The greatest number that is too small to be read: one over two to the
/// power 1075, which is five to the power 1075 over ten to the power 1075. A
/// binary floating-point number of 64 bits that is nearest to this number or
/// to a smaller one is zero.
pub open spec fn positive_limit() -> DecimalView {
    canonical_of(decimal_digits(power(5, 1075)), POSITIVE_EXPONENT as int)
}

/// Powers of ten grow with their exponents.
pub proof fn lemma_pow10_grows(a: nat, b: nat)
    requires
        a <= b,
    ensures
        pow10(a) <= pow10(b),
    decreases b,
{
    if a < b {
        lemma_pow10_grows(a, (b - 1) as nat);
    }
}

/// A string of `n` digits writes a number below ten to the power `n`, and
/// one of at least ten to the power `n - 1` if it begins with no zero.
pub proof fn lemma_value_bounds(s: Seq<u8>)
    requires
        all_digits(s),
    ensures
        digits_value(s) < pow10(s.len()),
        s.len() > 0 && s[0] != 0 ==> digits_value(s) >= pow10((s.len() - 1) as nat),
    decreases s.len(),
{
    if s.len() > 0 {
        let front = s.drop_last();
        lemma_value_bounds(front);
        assert(s.last() <= 9);
        if front.len() > 0 {
            assert(front[0] == s[0]);
        }
    }
}

/// Zeros behind the digits of a number multiply it by a power of ten.
pub proof fn lemma_value_padded(s: Seq<u8>, k: nat)
    ensures
        digits_value(s + Seq::new(k, |i: int| 0u8)) == digits_value(s) * pow10(k),
{
    let pad = Seq::new(k, |i: int| 0u8);
    lemma_value_concat(s, pad);
    lemma_value_zeros(pad);
}

/// Of two strings of digits of one length, the one with the lower digit at
/// the first place where they differ writes the lower number.
#[verifier::rlimit(50)]
pub proof fn lemma_first_difference(s: Seq<u8>, t: Seq<u8>, i: int)
    requires
        all_digits(s),
        all_digits(t),
        s.len() == t.len(),
        0 <= i < s.len(),
        s.take(i) == t.take(i),
        s[i] < t[i],
    ensures
        digits_value(s) < digits_value(t),
{
    let n = s.len() as int;
    let rest = (n - i - 1) as nat;
    let p = pow10(rest) as int;
    assert(s =~= s.take(i + 1) + s.skip(i + 1));
    assert(t =~= t.take(i + 1) + t.skip(i + 1));
    lemma_value_concat(s.take(i + 1), s.skip(i + 1));
    lemma_value_concat(t.take(i + 1), t.skip(i + 1));
    assert(s.take(i + 1).drop_last() =~= s.take(i));
    assert(t.take(i + 1).drop_last() =~= t.take(i));
    let head = digits_value(s.take(i)) as int;
    let hs = digits_value(s.take(i + 1)) as int;
    let ht = digits_value(t.take(i + 1)) as int;
    assert(hs == head * 10 + s[i]);
    assert(ht == head * 10 + t[i]);
    let ls = digits_value(s.skip(i + 1)) as int;
    let lt = digits_value(t.skip(i + 1)) as int;
    lemma_value_bounds(s.skip(i + 1));
    assert(ls < p);
    assert(hs * p + ls < ht * p + lt) by (nonlinear_arith)
        requires
            hs + 1 <= ht,
            0 <= ls < p,
            0 <= lt,
    ;
}

/// Of two numbers other than zero, the one whose leading digit stands at the
/// lower place is the lower number.
#[verifier::rlimit(50)]
pub proof fn lemma_lower_magnitude(a: DecimalView, b: DecimalView)
    requires
        all_digits(a.digits),
        all_digits(b.digits),
        a.digits.len() > 0,
        b.digits.len() > 0,
        a.digits[0] != 0,
        b.digits[0] != 0,
        a.magnitude() < b.magnitude(),
    ensures
        below(a, b),
        !below(b, a),
{
    let m = if a.exponent <= b.exponent {
        a.exponent
    } else {
        b.exponent
    };
    let ka = (a.exponent - m) as nat;
    let kb = (b.exponent - m) as nat;
    lemma_value_bounds(a.digits);
    lemma_value_bounds(b.digits);
    let top = a.digits.len() + ka;
    let bottom = (b.digits.len() - 1) as nat + kb;
    lemma_pow10_sum(a.digits.len(), ka);
    lemma_pow10_sum((b.digits.len() - 1) as nat, kb);
    lemma_pow10_grows(top, bottom);
    lemma_pow10_positive(ka);
    lemma_pow10_positive(kb);
    let va = a.coefficient() as int;
    let vb = b.coefficient() as int;
    let pa = pow10(ka) as int;
    let pb = pow10(kb) as int;
    let na = pow10(a.digits.len()) as int;
    let nb = pow10((b.digits.len() - 1) as nat) as int;
    assert(va * pa < na * pa) by (nonlinear_arith)
        requires
            va < na,
            pa > 0,
    ;
    assert(nb * pb <= vb * pb) by (nonlinear_arith)
        requires
            nb <= vb,
            pb > 0,
    ;
}

/// Powers of one number multiply by adding their exponents.
pub proof fn lemma_power_sum(b: nat, x: nat, y: nat)
    ensures
        power(b, x + y) == power(b, x) * power(b, y),
    decreases x,
{
    if x == 0 {
        assert(power(b, 0) == 1);
        assert(1 * power(b, y) == power(b, y)) by (nonlinear_arith);
    } else {
        lemma_power_sum(b, (x - 1) as nat, y);
        assert((x - 1) as nat + y == (x + y - 1) as nat);
        assert(b * (power(b, (x - 1) as nat) * power(b, y)) == (b * power(b, (x - 1) as nat))
            * power(b, y)) by (nonlinear_arith);
    }
}

/// Five times two is ten, to every power: five to a power, over ten to that
/// power, is one over two to that power.
pub proof fn lemma_five_times_two(n: nat)
    ensures
        power(5, n) * power(2, n) == pow10(n),
    decreases n,
{
    if n > 0 {
        lemma_five_times_two((n - 1) as nat);
        let a = power(5, (n - 1) as nat) as int;
        let b = power(2, (n - 1) as nat) as int;
        assert(power(5, n) == 5 * a);
        assert(power(2, n) == 2 * b);
        assert(pow10(n) == 10 * (a * b));
        assert((5 * a) * (2 * b) == 10 * (a * b)) by (nonlinear_arith);
    } else {
        assert(power(5, 0) == 1);
        assert(power(2, 0) == 1);
        assert(pow10(0) == 1);
    }
}

/// The digits of a number are digits, write the number, and do not begin
/// with a zero.
pub proof fn lemma_decimal_digits(n: nat)
    ensures
        all_digits(decimal_digits(n)),
        digits_value(decimal_digits(n)) == n,
        n > 0 ==> decimal_digits(n).len() > 0 && decimal_digits(n)[0] != 0,
        n == 0 ==> decimal_digits(n).len() == 0,
    decreases n,
{
    if n > 0 {
        lemma_decimal_digits(n / 10);
        let front = decimal_digits(n / 10);
        let all = decimal_digits(n);
        assert(all.drop_last() =~= front);
        assert forall|i: int| 0 <= i < all.len() implies #[trigger] all[i] <= 9 by {
            if i < front.len() {
                assert(all[i] == front[i]);
            }
        }
        if n / 10 > 0 {
            assert(all[0] == front[0]);
        }
    }
}

/// A number below ten to the power `k` has at most `k` digits.
pub proof fn lemma_digit_count(n: nat, k: nat)
    requires
        n < pow10(k),
    ensures
        decimal_digits(n).len() <= k,
    decreases n,
{
    if n > 0 {
        if k == 0 {
            assert(pow10(0) == 1);
        } else {
            assert(pow10(k) == 10 * pow10((k - 1) as nat));
            lemma_digit_count(n / 10, (k - 1) as nat);
        }
    }
}

/// Digits that write the number `n` make the same decimal as the digits of
/// `n`, with every exponent.
proof fn lemma_same_number(s: Seq<u8>, n: nat, e: int)
    requires
        all_digits(s),
        digits_value(s) == n,
    ensures
        canonical_of(s, e) == canonical_of(decimal_digits(n), e),
{
    lemma_decimal_digits(n);
    lemma_canonical_of(s, e);
    lemma_canonical_of(decimal_digits(n), e);
    crate::decimal::lemma_normal_unique(
        canonical_of(s, e),
        canonical_of(decimal_digits(n), e),
        n,
        e,
    );
}

/// The powers of two whose exponents are powers of two, up to 1024, and the
/// power 970.
#[verifier::rlimit(100)]
proof fn lemma_powers_of_two()
    ensures
        power(2, 1) == 2nat,
        power(2, 2) == 4nat,
        power(2, 4) == 16nat,
        power(2, 8) == 256nat,
        power(2, 16) == 65536nat,
        power(2, 32) == 4294967296nat,
        power(2, 64) == 18446744073709551616nat,
        power(2, 128) == 340282366920938463463374607431768211456nat,
        power(2, 256) == 115792089237316195423570985008687907853269984665640564039457584007913129639936nat,
        power(2, 512) == 13407807929942597099574024998205846127479365820592393377723561443721764030073546976801874298166903427690031858186486050853753882811946569946433649006084096nat,
        power(2, 1024) == 179769313486231590772930519078902473361797697894230657273430081157732675805500963132708477322407536021120113879871393357658789768814416622492847430639474124377767893424865485276302219601246094119453082952085005768838150682342462881473913110540827237163350510684586298239947245938479716304835356329624224137216nat,
        power(2, 970) == 9979201547673599058281863565184192830337256302177287707512736212186059459344820328924789827463178505446712234220962476219862189941967968303695858991424157101600028364755428382587688607221814935913266783722719619966654052275604351944444276342240220787535604534378780208211792476151720049639424nat,
{
    assert(power(2, 1) == 2) by {
        reveal_with_fuel(power, 2);
    }
    lemma_power_sum(2, 1, 1);
    assert(power(2, 2) == 2nat * 2nat);
    lemma_power_sum(2, 2, 2);
    assert(power(2, 4) == 4nat * 4nat);
    lemma_power_sum(2, 4, 4);
    assert(power(2, 8) == 16nat * 16nat);
    lemma_power_sum(2, 8, 8);
    assert(power(2, 16) == 256nat * 256nat);
    lemma_power_sum(2, 16, 16);
    assert(power(2, 32) == 65536nat * 65536nat);
    lemma_power_sum(2, 32, 32);
    assert(power(2, 64) == 4294967296nat * 4294967296nat);
    lemma_power_sum(2, 64, 64);
    assert(power(2, 128) == 18446744073709551616nat * 18446744073709551616nat);
    lemma_power_sum(2, 128, 128);
    assert(power(2, 256) == 340282366920938463463374607431768211456nat * 340282366920938463463374607431768211456nat);
    lemma_power_sum(2, 256, 256);
    assert(power(2, 512) == 115792089237316195423570985008687907853269984665640564039457584007913129639936nat * 115792089237316195423570985008687907853269984665640564039457584007913129639936nat);
    lemma_power_sum(2, 512, 512);
    assert(power(2, 1024) == 13407807929942597099574024998205846127479365820592393377723561443721764030073546976801874298166903427690031858186486050853753882811946569946433649006084096nat * 13407807929942597099574024998205846127479365820592393377723561443721764030073546976801874298166903427690031858186486050853753882811946569946433649006084096nat);
    lemma_power_sum(2, 512, 256);
    assert(power(2, 768) == 13407807929942597099574024998205846127479365820592393377723561443721764030073546976801874298166903427690031858186486050853753882811946569946433649006084096nat * 115792089237316195423570985008687907853269984665640564039457584007913129639936nat);
    lemma_power_sum(2, 768, 128);
    assert(power(2, 896) == 1552518092300708935148979488462502555256886017116696611139052038026050952686376886330878408828646477950487730697131073206171580044114814391444287275041181139204454976020849905550265285631598444825262999193716468750892846853816057856nat * 340282366920938463463374607431768211456nat);
    lemma_power_sum(2, 896, 64);
    assert(power(2, 960) == 528294531135665246352339784916516606518847326036121522127960709026673902556724859474417255887657187894674394993257128678882347559502685537250538978462939576908386683999005084168731517676426441053024232908211188404148028292751561738838396898767036476489538580897737998336nat * 18446744073709551616nat);
    lemma_power_sum(2, 960, 8);
    assert(power(2, 968) == 9745314011399999080353382387875188310876226857595007526867906457212948690766426102465615065882010259225304916231408668183459169865203094046577987296312653419531277699956473029870789655490053648352799593479218378873685597925394874945746363615468965612827738803104277547081828589991914110976nat * 256nat);
    lemma_power_sum(2, 968, 2);
    assert(power(2, 970) == 2494800386918399764570465891296048207584314075544321926878184053046514864836205082231197456865794626361678058555240619054965547485491992075923964747856039275400007091188857095646922151805453733978316695930679904991663513068901087986111069085560055196883901133594695052052948119037930012409856nat * 4nat);
}

/// The powers of five whose exponents are powers of two, up to 1024, and the
/// power 1075.
#[verifier::rlimit(100)]
proof fn lemma_powers_of_five()
    ensures
        power(5, 1) == 5nat,
        power(5, 2) == 25nat,
        power(5, 4) == 625nat,
        power(5, 8) == 390625nat,
        power(5, 16) == 152587890625nat,
        power(5, 32) == 23283064365386962890625nat,
        power(5, 64) == 542101086242752217003726400434970855712890625nat,
        power(5, 128) == 293873587705571876992184134305561419454666389193021880377187926569604314863681793212890625nat,
        power(5, 256) == 86361685550944446253863518628003995711160003644362813850237034701685918031624270579715075034722882265605472939461496635969950989468319466936530037770580747746862471103668212890625nat,
        power(5, 512) == 7458340731200206743290965315462933837376471534600406894271518333206278385070118304936174890400427803361511603255836101453412728095225302660486164829592084691481260792318781377495204074266435262941446554365063914765414217260588507120031686823003222742297563699265350215337206058336516628646003612927433551846968657326499008153319891789578832685947418212890625nat,
        power(5, 1024) == 55626846462680034577255817933310101605480399511558295763833185422180110870347954896357078975312775514101683493275895275128810854038836502721400309634442970528269449838300058261990253686064590901798039126173562593355209381270166265416453973718012279499214790991212515897719252957621869994522193843748736289511290126272884996414561770466127838448395124802899527144151299810833802858809753719892490239782222290074816037776586657834841586939662825734294051183140794537141608771803070715941051121170285190347786926570042246331102750604036185540464179153763503857127117918822547579033069472418242684328083352174724579376695971173152319349449321466491373527284227385153411689217559966957882267024615430273115634918212890625nat,
        power(5, 1075) == 24703282292062327208828439643411068618252990130716238221279284125033775363510437593264991818081799618989828234772285886546332835517796989819938739800539093906315035659515570226392290858392449105184435931802849936536152500319370457678249219365623669863658480757001585769269903706311928279558551332927834338409351978015531246597263579574622766465272827220056374006485499977096599470454020828166226237857393450736339007967761930577506740176324673600968951340535537458516661134223766678604162159680461914467291840300530057530849048765391711386591646239524912623653881879636239373280423891018672348497668235089863388587925628302755995657524455507255189313690836254779186948667994968324049705821028513185451396213837722826145437693412532098591327667236328125nat,
{
    assert(power(5, 1) == 5) by {
        reveal_with_fuel(power, 2);
    }
    lemma_power_sum(5, 1, 1);
    assert(power(5, 2) == 5nat * 5nat);
    lemma_power_sum(5, 2, 2);
    assert(power(5, 4) == 25nat * 25nat);
    lemma_power_sum(5, 4, 4);
    assert(power(5, 8) == 625nat * 625nat);
    lemma_power_sum(5, 8, 8);
    assert(power(5, 16) == 390625nat * 390625nat);
    lemma_power_sum(5, 16, 16);
    assert(power(5, 32) == 152587890625nat * 152587890625nat);
    lemma_power_sum(5, 32, 32);
    assert(power(5, 64) == 23283064365386962890625nat * 23283064365386962890625nat);
    lemma_power_sum(5, 64, 64);
    assert(power(5, 128) == 542101086242752217003726400434970855712890625nat * 542101086242752217003726400434970855712890625nat);
    lemma_power_sum(5, 128, 128);
    assert(power(5, 256) == 293873587705571876992184134305561419454666389193021880377187926569604314863681793212890625nat * 293873587705571876992184134305561419454666389193021880377187926569604314863681793212890625nat);
    lemma_power_sum(5, 256, 256);
    assert(power(5, 512) == 86361685550944446253863518628003995711160003644362813850237034701685918031624270579715075034722882265605472939461496635969950989468319466936530037770580747746862471103668212890625nat * 86361685550944446253863518628003995711160003644362813850237034701685918031624270579715075034722882265605472939461496635969950989468319466936530037770580747746862471103668212890625nat);
    lemma_power_sum(5, 512, 512);
    assert(power(5, 1024) == 7458340731200206743290965315462933837376471534600406894271518333206278385070118304936174890400427803361511603255836101453412728095225302660486164829592084691481260792318781377495204074266435262941446554365063914765414217260588507120031686823003222742297563699265350215337206058336516628646003612927433551846968657326499008153319891789578832685947418212890625nat * 7458340731200206743290965315462933837376471534600406894271518333206278385070118304936174890400427803361511603255836101453412728095225302660486164829592084691481260792318781377495204074266435262941446554365063914765414217260588507120031686823003222742297563699265350215337206058336516628646003612927433551846968657326499008153319891789578832685947418212890625nat);
    lemma_power_sum(5, 1024, 32);
    assert(power(5, 1056) == 55626846462680034577255817933310101605480399511558295763833185422180110870347954896357078975312775514101683493275895275128810854038836502721400309634442970528269449838300058261990253686064590901798039126173562593355209381270166265416453973718012279499214790991212515897719252957621869994522193843748736289511290126272884996414561770466127838448395124802899527144151299810833802858809753719892490239782222290074816037776586657834841586939662825734294051183140794537141608771803070715941051121170285190347786926570042246331102750604036185540464179153763503857127117918822547579033069472418242684328083352174724579376695971173152319349449321466491373527284227385153411689217559966957882267024615430273115634918212890625nat * 23283064365386962890625nat);
    lemma_power_sum(5, 1056, 16);
    assert(power(5, 1072) == 1295163446634077340766224496376470234372662368965295510455807331534570801778416030489771603031847055864093906555229222288560374966795474819871604201254504046595409741585609928285476138956486035645893754581305258752666632208744209851521392672276410262547777755912684739979897927437486825383319376123806840961596232984980684621598612760801982098454496003754891621511226981199202194316539767195761442179377709749965370580940196705861985379356491047290480956042669586305078323273991018439201897037455001621222750436748430280273378607910968957945336102362803738963024642291072466853844688097439768824914548363879429627598635181159533545129218172898780869489634115834567036694324574595267937216549539712097394161816055202507413923740386962890625nat * 152587890625nat);
    lemma_power_sum(5, 1072, 2);
    assert(power(5, 1074) == 197626258336498617670627517147288548946023921045729905770234273000270202908083500746119934544654396951918625878178287092370662684142375918559509918404312751250520285276124561811138326867139592841475487454422799492289220002554963661425993754924989358909267846056012686154159229650495426236468410663422674707274815824124249972778108636596982131722182617760450992051883999816772795763632166625329809902859147605890712063742095444620053921410597388807751610724284299668133289073790133428833297277443695315738334722404240460246792390123133691092733169916199300989231055037089914986243391128149378787981345880718907108703405026422047965260195644058041514509526690038233495589343959746592397646568228105483611169710701782609163501547300256788730621337890625nat * 25nat);
    lemma_power_sum(5, 1074, 1);
    assert(power(5, 1075) == 4940656458412465441765687928682213723650598026143247644255856825006755072702087518652998363616359923797965646954457177309266567103559397963987747960107818781263007131903114045278458171678489821036887186360569987307230500063874091535649843873124733972731696151400317153853980741262385655911710266585566867681870395603106249319452715914924553293054565444011274801297099995419319894090804165633245247571478690147267801593552386115501348035264934720193790268107107491703332226844753335720832431936092382893458368060106011506169809753078342277318329247904982524730776375927247874656084778203734469699533647017972677717585125660551199131504891101451037862738167250955837389733598993664809941164205702637090279242767544565229087538682506419718265533447265625nat * 5nat);
}

/// The powers of ten whose exponents are powers of two, up to 256, the
/// power 309, and the powers up to 18.
#[verifier::rlimit(100)]
proof fn lemma_powers_of_ten()
    ensures
        pow10(0) == 1nat,
        pow10(1) == 10nat,
        pow10(2) == 100nat,
        pow10(3) == 1000nat,
        pow10(4) == 10000nat,
        pow10(5) == 100000nat,
        pow10(6) == 1000000nat,
        pow10(7) == 10000000nat,
        pow10(8) == 100000000nat,
        pow10(9) == 1000000000nat,
        pow10(10) == 10000000000nat,
        pow10(11) == 100000000000nat,
        pow10(12) == 1000000000000nat,
        pow10(13) == 10000000000000nat,
        pow10(14) == 100000000000000nat,
        pow10(15) == 1000000000000000nat,
        pow10(16) == 10000000000000000nat,
        pow10(17) == 100000000000000000nat,
        pow10(18) == 1000000000000000000nat,
        pow10(32) == 100000000000000000000000000000000nat,
        pow10(64) == 10000000000000000000000000000000000000000000000000000000000000000nat,
        pow10(128) == 100000000000000000000000000000000000000000000000000000000000000000000000000000000000000000000000000000000000000000000000000000000nat,
        pow10(256) == 10000000000000000000000000000000000000000000000000000000000000000000000000000000000000000000000000000000000000000000000000000000000000000000000000000000000000000000000000000000000000000000000000000000000000000000000000000000000000000000000000000000000000000nat,
        pow10(309) == 1000000000000000000000000000000000000000000000000000000000000000000000000000000000000000000000000000000000000000000000000000000000000000000000000000000000000000000000000000000000000000000000000000000000000000000000000000000000000000000000000000000000000000000000000000000000000000000000000000000000000000000000nat,
{
    reveal_with_fuel(pow10, 20);
    lemma_pow10_sum(16, 16);
    assert(pow10(32) == 10000000000000000nat * 10000000000000000nat);
    lemma_pow10_sum(32, 32);
    assert(pow10(64) == 100000000000000000000000000000000nat * 100000000000000000000000000000000nat);
    lemma_pow10_sum(64, 64);
    assert(pow10(128) == 10000000000000000000000000000000000000000000000000000000000000000nat * 10000000000000000000000000000000000000000000000000000000000000000nat);
    lemma_pow10_sum(128, 128);
    assert(pow10(256) == 100000000000000000000000000000000000000000000000000000000000000000000000000000000000000000000000000000000000000000000000000000000nat * 100000000000000000000000000000000000000000000000000000000000000000000000000000000000000000000000000000000000000000000000000000000nat);
    lemma_pow10_sum(256, 32);
    assert(pow10(288) == 10000000000000000000000000000000000000000000000000000000000000000000000000000000000000000000000000000000000000000000000000000000000000000000000000000000000000000000000000000000000000000000000000000000000000000000000000000000000000000000000000000000000000000nat * 100000000000000000000000000000000nat);
    lemma_pow10_sum(288, 16);
    assert(pow10(304) == 1000000000000000000000000000000000000000000000000000000000000000000000000000000000000000000000000000000000000000000000000000000000000000000000000000000000000000000000000000000000000000000000000000000000000000000000000000000000000000000000000000000000000000000000000000000000000000000000000nat * 10000000000000000nat);
    lemma_pow10_sum(304, 4);
    assert(pow10(308) == 10000000000000000000000000000000000000000000000000000000000000000000000000000000000000000000000000000000000000000000000000000000000000000000000000000000000000000000000000000000000000000000000000000000000000000000000000000000000000000000000000000000000000000000000000000000000000000000000000000000000000000nat * 10000nat);
    lemma_pow10_sum(308, 1);
    assert(pow10(309) == 100000000000000000000000000000000000000000000000000000000000000000000000000000000000000000000000000000000000000000000000000000000000000000000000000000000000000000000000000000000000000000000000000000000000000000000000000000000000000000000000000000000000000000000000000000000000000000000000000000000000000000000nat * 10nat);
}

/// The limits of the range are numbers other than zero. The leading digit of
/// the upper one stands at the place 308 or below, that of the lower one at
/// the place -1075 or above.
pub proof fn lemma_limits()
    ensures
        all_digits(finite_limit().digits),
        all_digits(positive_limit().digits),
        finite_limit().digits.len() > 0,
        positive_limit().digits.len() > 0,
        finite_limit().digits[0] != 0,
        positive_limit().digits[0] != 0,
        finite_limit().magnitude() <= 308,
        positive_limit().magnitude() >= POSITIVE_EXPONENT,
{
    lemma_powers_of_two();
    lemma_powers_of_five();
    lemma_powers_of_ten();
    let high = (power(2, 1024) - power(2, 970)) as nat;
    let low = power(5, 1075);
    lemma_decimal_digits(high);
    lemma_decimal_digits(low);
    lemma_digit_count(high, 309);
    lemma_canonical_of(decimal_digits(high), 0);
    lemma_canonical_of(decimal_digits(low), POSITIVE_EXPONENT as int);
    lemma_strip_leading(decimal_digits(high), 0);
    lemma_strip_leading(decimal_digits(low), 0);
    assert(decimal_digits(high).skip(0) =~= decimal_digits(high));
    assert(decimal_digits(low).skip(0) =~= decimal_digits(low));
}

/// The leading digit of a number in range that is not zero stands at a place
/// from -1075 to 308.
pub proof fn lemma_range_magnitude(v: DecimalView)
    requires
        v.canonical(),
        v.digits.len() > 0,
        v.in_range(),
    ensures
        POSITIVE_EXPONENT <= v.magnitude() <= 308,
{
    lemma_limits();
    if v.magnitude() > 308 {
        lemma_lower_magnitude(finite_limit(), v);
    }
    if v.magnitude() < POSITIVE_EXPONENT {
        lemma_lower_magnitude(v, positive_limit());
    }
}

/// Writes the `width` digits of `chunk` behind `digits`, with zeros in front
/// where `chunk` has fewer.
fn push_chunk(digits: &mut Vec<u8>, chunk: u64, width: usize)
    requires
        all_digits(old(digits)@),
        width <= 18,
        chunk < pow10(width as nat),
    ensures
        all_digits(final(digits)@),
        final(digits)@.len() == old(digits)@.len() + width,
        digits_value(final(digits)@) == digits_value(old(digits)@) * pow10(width as nat) + chunk,
{
    let start = digits.len();
    let mut rest: u64 = chunk;
    let mut count: usize = 0;
    proof {
        assert(digits@.skip(start as int) =~= Seq::<u8>::empty());
        assert(pow10(0) == 1);
    }
    while count < width
        invariant
            count <= width <= 18,
            start == old(digits)@.len(),
            digits@.len() == start + count,
            digits@.take(start as int) == old(digits)@,
            all_digits(digits@),
            digits_value(digits@.skip(start as int)) + rest * pow10(count as nat) == chunk,
        decreases width - count,
    {
        let low: u8 = (rest % 10) as u8;
        let ghost before = digits@;
        let ghost tail = before.skip(start as int);
        let ghost p = pow10(count as nat) as int;
        digits.insert(start, low);
        proof {
            assert(digits@.skip(start as int) =~= seq![low] + tail);
            assert(digits@.take(start as int) =~= before.take(start as int));
            lemma_value_concat(seq![low], tail);
            assert(digits_value(seq![low]) == low) by {
                reveal_with_fuel(digits_value, 2);
                assert(seq![low].drop_last() =~= Seq::<u8>::empty());
            }
            assert(pow10((count + 1) as nat) == 10 * p);
            let vt = digits_value(tail) as int;
            let r = rest as int;
            let q = (rest / 10) as int;
            assert(low * p + vt + q * (10 * p) == vt + r * p) by (nonlinear_arith)
                requires
                    r == q * 10 + low,
            ;
            assert forall|k: int| 0 <= k < digits@.len() implies #[trigger] digits@[k] <= 9 by {
                if k < start {
                    assert(digits@[k] == before[k]);
                } else if k > start {
                    assert(digits@[k] == before[k - 1]);
                }
            }
        }
        rest = rest / 10;
        count += 1;
    }
    proof {
        let p = pow10(width as nat) as int;
        let r = rest as int;
        assert(r == 0) by (nonlinear_arith)
            requires
                r * p <= chunk,
                chunk < p,
                r >= 0,
        ;
        assert(rest * pow10(count as nat) == 0) by (nonlinear_arith)
            requires
                rest == 0,
        ;
        let tail = digits@.skip(start as int);
        assert(digits_value(tail) == chunk);
        assert(tail.len() == width);
        assert(digits@ =~= old(digits)@ + tail);
        lemma_value_concat(old(digits)@, tail);
    }
}

impl Decimal {
    /// The number below which a number must be to be read: two to the power
    /// 1024, less two to the power 970.
    #[verifier::rlimit(100)]
    pub fn finite_limit() -> (r: Decimal)
        ensures
            r.wf(),
            r@ == finite_limit(),
    {
        proof {
            lemma_powers_of_ten();
        }
        let mut digits: Vec<u8> = Vec::new();
        push_chunk(&mut digits, 179, 3);
        assert(digits_value(digits@) == 179nat);
        push_chunk(&mut digits, 769313486231580793, 18);
        assert(digits_value(digits@) == 179769313486231580793nat);
        push_chunk(&mut digits, 728971405303415079, 18);
        assert(digits_value(digits@) == 179769313486231580793728971405303415079nat);
        push_chunk(&mut digits, 934132710037826936, 18);
        assert(digits_value(digits@) == 179769313486231580793728971405303415079934132710037826936nat);
        push_chunk(&mut digits, 173778980444968292, 18);
        assert(digits_value(digits@) == 179769313486231580793728971405303415079934132710037826936173778980444968292nat);
        push_chunk(&mut digits, 764750946649017977, 18);
        assert(digits_value(digits@) == 179769313486231580793728971405303415079934132710037826936173778980444968292764750946649017977nat);
        push_chunk(&mut digits, 587207096330286416, 18);
        assert(digits_value(digits@) == 179769313486231580793728971405303415079934132710037826936173778980444968292764750946649017977587207096330286416nat);
        push_chunk(&mut digits, 692887910946555547, 18);
        assert(digits_value(digits@) == 179769313486231580793728971405303415079934132710037826936173778980444968292764750946649017977587207096330286416692887910946555547nat);
        push_chunk(&mut digits, 851940402630657488, 18);
        assert(digits_value(digits@) == 179769313486231580793728971405303415079934132710037826936173778980444968292764750946649017977587207096330286416692887910946555547851940402630657488nat);
        push_chunk(&mut digits, 671505820681908902, 18);
        assert(digits_value(digits@) == 179769313486231580793728971405303415079934132710037826936173778980444968292764750946649017977587207096330286416692887910946555547851940402630657488671505820681908902nat);
        push_chunk(&mut digits, 708383676273854, 18);
        assert(digits_value(digits@) == 179769313486231580793728971405303415079934132710037826936173778980444968292764750946649017977587207096330286416692887910946555547851940402630657488671505820681908902000708383676273854nat);
        push_chunk(&mut digits, 845817711531764475, 18);
        assert(digits_value(digits@) == 179769313486231580793728971405303415079934132710037826936173778980444968292764750946649017977587207096330286416692887910946555547851940402630657488671505820681908902000708383676273854845817711531764475nat);
        push_chunk(&mut digits, 730270069855571366, 18);
        assert(digits_value(digits@) == 179769313486231580793728971405303415079934132710037826936173778980444968292764750946649017977587207096330286416692887910946555547851940402630657488671505820681908902000708383676273854845817711531764475730270069855571366nat);
        push_chunk(&mut digits, 959622842914819860, 18);
        assert(digits_value(digits@) == 179769313486231580793728971405303415079934132710037826936173778980444968292764750946649017977587207096330286416692887910946555547851940402630657488671505820681908902000708383676273854845817711531764475730270069855571366959622842914819860nat);
        push_chunk(&mut digits, 834936475292719074, 18);
        assert(digits_value(digits@) == 179769313486231580793728971405303415079934132710037826936173778980444968292764750946649017977587207096330286416692887910946555547851940402630657488671505820681908902000708383676273854845817711531764475730270069855571366959622842914819860834936475292719074nat);
        push_chunk(&mut digits, 168444365510704342, 18);
        assert(digits_value(digits@) == 179769313486231580793728971405303415079934132710037826936173778980444968292764750946649017977587207096330286416692887910946555547851940402630657488671505820681908902000708383676273854845817711531764475730270069855571366959622842914819860834936475292719074168444365510704342nat);
        push_chunk(&mut digits, 711559699508093042, 18);
        assert(digits_value(digits@) == 179769313486231580793728971405303415079934132710037826936173778980444968292764750946649017977587207096330286416692887910946555547851940402630657488671505820681908902000708383676273854845817711531764475730270069855571366959622842914819860834936475292719074168444365510704342711559699508093042nat);
        push_chunk(&mut digits, 880177904174497792, 18);
        assert(digits_value(digits@) == 179769313486231580793728971405303415079934132710037826936173778980444968292764750946649017977587207096330286416692887910946555547851940402630657488671505820681908902000708383676273854845817711531764475730270069855571366959622842914819860834936475292719074168444365510704342711559699508093042880177904174497792nat);
        proof {
            lemma_powers_of_two();
            lemma_same_number(digits@, (power(2, 1024) - power(2, 970)) as nat, 0 as int);
        }
        Decimal::normalized(&digits, 0)
    }

    /// The number above which a number other than zero must be to be read:
    /// five to the power 1075 over ten to the power 1075.
    #[verifier::rlimit(100)]
    pub fn positive_limit() -> (r: Decimal)
        ensures
            r.wf(),
            r@ == positive_limit(),
    {
        proof {
            lemma_powers_of_ten();
        }
        let mut digits: Vec<u8> = Vec::new();
        push_chunk(&mut digits, 24703282292062, 14);
        assert(digits_value(digits@) == 24703282292062nat);
        push_chunk(&mut digits, 327208828439643411, 18);
        assert(digits_value(digits@) == 24703282292062327208828439643411nat);
        push_chunk(&mut digits, 68618252990130716, 18);
        assert(digits_value(digits@) == 24703282292062327208828439643411068618252990130716nat);
        push_chunk(&mut digits, 238221279284125033, 18);
        assert(digits_value(digits@) == 24703282292062327208828439643411068618252990130716238221279284125033nat);
        push_chunk(&mut digits, 775363510437593264, 18);
        assert(digits_value(digits@) == 24703282292062327208828439643411068618252990130716238221279284125033775363510437593264nat);
        push_chunk(&mut digits, 991818081799618989, 18);
        assert(digits_value(digits@) == 24703282292062327208828439643411068618252990130716238221279284125033775363510437593264991818081799618989nat);
        push_chunk(&mut digits, 828234772285886546, 18);
        assert(digits_value(digits@) == 24703282292062327208828439643411068618252990130716238221279284125033775363510437593264991818081799618989828234772285886546nat);
        push_chunk(&mut digits, 332835517796989819, 18);
        assert(digits_value(digits@) == 24703282292062327208828439643411068618252990130716238221279284125033775363510437593264991818081799618989828234772285886546332835517796989819nat);
        push_chunk(&mut digits, 938739800539093906, 18);
        assert(digits_value(digits@) == 24703282292062327208828439643411068618252990130716238221279284125033775363510437593264991818081799618989828234772285886546332835517796989819938739800539093906nat);
        push_chunk(&mut digits, 315035659515570226, 18);
        assert(digits_value(digits@) == 24703282292062327208828439643411068618252990130716238221279284125033775363510437593264991818081799618989828234772285886546332835517796989819938739800539093906315035659515570226nat);
        push_chunk(&mut digits, 392290858392449105, 18);
        assert(digits_value(digits@) == 24703282292062327208828439643411068618252990130716238221279284125033775363510437593264991818081799618989828234772285886546332835517796989819938739800539093906315035659515570226392290858392449105nat);
        push_chunk(&mut digits, 184435931802849936, 18);
        assert(digits_value(digits@) == 24703282292062327208828439643411068618252990130716238221279284125033775363510437593264991818081799618989828234772285886546332835517796989819938739800539093906315035659515570226392290858392449105184435931802849936nat);
        push_chunk(&mut digits, 536152500319370457, 18);
        assert(digits_value(digits@) == 24703282292062327208828439643411068618252990130716238221279284125033775363510437593264991818081799618989828234772285886546332835517796989819938739800539093906315035659515570226392290858392449105184435931802849936536152500319370457nat);
        push_chunk(&mut digits, 678249219365623669, 18);
        assert(digits_value(digits@) == 24703282292062327208828439643411068618252990130716238221279284125033775363510437593264991818081799618989828234772285886546332835517796989819938739800539093906315035659515570226392290858392449105184435931802849936536152500319370457678249219365623669nat);
        push_chunk(&mut digits, 863658480757001585, 18);
        assert(digits_value(digits@) == 24703282292062327208828439643411068618252990130716238221279284125033775363510437593264991818081799618989828234772285886546332835517796989819938739800539093906315035659515570226392290858392449105184435931802849936536152500319370457678249219365623669863658480757001585nat);
        push_chunk(&mut digits, 769269903706311928, 18);
        assert(digits_value(digits@) == 24703282292062327208828439643411068618252990130716238221279284125033775363510437593264991818081799618989828234772285886546332835517796989819938739800539093906315035659515570226392290858392449105184435931802849936536152500319370457678249219365623669863658480757001585769269903706311928nat);
        push_chunk(&mut digits, 279558551332927834, 18);
        assert(digits_value(digits@) == 24703282292062327208828439643411068618252990130716238221279284125033775363510437593264991818081799618989828234772285886546332835517796989819938739800539093906315035659515570226392290858392449105184435931802849936536152500319370457678249219365623669863658480757001585769269903706311928279558551332927834nat);
        push_chunk(&mut digits, 338409351978015531, 18);
        assert(digits_value(digits@) == 24703282292062327208828439643411068618252990130716238221279284125033775363510437593264991818081799618989828234772285886546332835517796989819938739800539093906315035659515570226392290858392449105184435931802849936536152500319370457678249219365623669863658480757001585769269903706311928279558551332927834338409351978015531nat);
        push_chunk(&mut digits, 246597263579574622, 18);
        assert(digits_value(digits@) == 24703282292062327208828439643411068618252990130716238221279284125033775363510437593264991818081799618989828234772285886546332835517796989819938739800539093906315035659515570226392290858392449105184435931802849936536152500319370457678249219365623669863658480757001585769269903706311928279558551332927834338409351978015531246597263579574622nat);
        push_chunk(&mut digits, 766465272827220056, 18);
        assert(digits_value(digits@) == 24703282292062327208828439643411068618252990130716238221279284125033775363510437593264991818081799618989828234772285886546332835517796989819938739800539093906315035659515570226392290858392449105184435931802849936536152500319370457678249219365623669863658480757001585769269903706311928279558551332927834338409351978015531246597263579574622766465272827220056nat);
        push_chunk(&mut digits, 374006485499977096, 18);
        assert(digits_value(digits@) == 24703282292062327208828439643411068618252990130716238221279284125033775363510437593264991818081799618989828234772285886546332835517796989819938739800539093906315035659515570226392290858392449105184435931802849936536152500319370457678249219365623669863658480757001585769269903706311928279558551332927834338409351978015531246597263579574622766465272827220056374006485499977096nat);
        push_chunk(&mut digits, 599470454020828166, 18);
        assert(digits_value(digits@) == 24703282292062327208828439643411068618252990130716238221279284125033775363510437593264991818081799618989828234772285886546332835517796989819938739800539093906315035659515570226392290858392449105184435931802849936536152500319370457678249219365623669863658480757001585769269903706311928279558551332927834338409351978015531246597263579574622766465272827220056374006485499977096599470454020828166nat);
        push_chunk(&mut digits, 226237857393450736, 18);
        assert(digits_value(digits@) == 24703282292062327208828439643411068618252990130716238221279284125033775363510437593264991818081799618989828234772285886546332835517796989819938739800539093906315035659515570226392290858392449105184435931802849936536152500319370457678249219365623669863658480757001585769269903706311928279558551332927834338409351978015531246597263579574622766465272827220056374006485499977096599470454020828166226237857393450736nat);
        push_chunk(&mut digits, 339007967761930577, 18);
        assert(digits_value(digits@) == 24703282292062327208828439643411068618252990130716238221279284125033775363510437593264991818081799618989828234772285886546332835517796989819938739800539093906315035659515570226392290858392449105184435931802849936536152500319370457678249219365623669863658480757001585769269903706311928279558551332927834338409351978015531246597263579574622766465272827220056374006485499977096599470454020828166226237857393450736339007967761930577nat);
        push_chunk(&mut digits, 506740176324673600, 18);
        assert(digits_value(digits@) == 24703282292062327208828439643411068618252990130716238221279284125033775363510437593264991818081799618989828234772285886546332835517796989819938739800539093906315035659515570226392290858392449105184435931802849936536152500319370457678249219365623669863658480757001585769269903706311928279558551332927834338409351978015531246597263579574622766465272827220056374006485499977096599470454020828166226237857393450736339007967761930577506740176324673600nat);
        push_chunk(&mut digits, 968951340535537458, 18);
        assert(digits_value(digits@) == 24703282292062327208828439643411068618252990130716238221279284125033775363510437593264991818081799618989828234772285886546332835517796989819938739800539093906315035659515570226392290858392449105184435931802849936536152500319370457678249219365623669863658480757001585769269903706311928279558551332927834338409351978015531246597263579574622766465272827220056374006485499977096599470454020828166226237857393450736339007967761930577506740176324673600968951340535537458nat);
        push_chunk(&mut digits, 516661134223766678, 18);
        assert(digits_value(digits@) == 24703282292062327208828439643411068618252990130716238221279284125033775363510437593264991818081799618989828234772285886546332835517796989819938739800539093906315035659515570226392290858392449105184435931802849936536152500319370457678249219365623669863658480757001585769269903706311928279558551332927834338409351978015531246597263579574622766465272827220056374006485499977096599470454020828166226237857393450736339007967761930577506740176324673600968951340535537458516661134223766678nat);
        push_chunk(&mut digits, 604162159680461914, 18);
        assert(digits_value(digits@) == 24703282292062327208828439643411068618252990130716238221279284125033775363510437593264991818081799618989828234772285886546332835517796989819938739800539093906315035659515570226392290858392449105184435931802849936536152500319370457678249219365623669863658480757001585769269903706311928279558551332927834338409351978015531246597263579574622766465272827220056374006485499977096599470454020828166226237857393450736339007967761930577506740176324673600968951340535537458516661134223766678604162159680461914nat);
        push_chunk(&mut digits, 467291840300530057, 18);
        assert(digits_value(digits@) == 24703282292062327208828439643411068618252990130716238221279284125033775363510437593264991818081799618989828234772285886546332835517796989819938739800539093906315035659515570226392290858392449105184435931802849936536152500319370457678249219365623669863658480757001585769269903706311928279558551332927834338409351978015531246597263579574622766465272827220056374006485499977096599470454020828166226237857393450736339007967761930577506740176324673600968951340535537458516661134223766678604162159680461914467291840300530057nat);
        push_chunk(&mut digits, 530849048765391711, 18);
        assert(digits_value(digits@) == 24703282292062327208828439643411068618252990130716238221279284125033775363510437593264991818081799618989828234772285886546332835517796989819938739800539093906315035659515570226392290858392449105184435931802849936536152500319370457678249219365623669863658480757001585769269903706311928279558551332927834338409351978015531246597263579574622766465272827220056374006485499977096599470454020828166226237857393450736339007967761930577506740176324673600968951340535537458516661134223766678604162159680461914467291840300530057530849048765391711nat);
        push_chunk(&mut digits, 386591646239524912, 18);
        assert(digits_value(digits@) == 24703282292062327208828439643411068618252990130716238221279284125033775363510437593264991818081799618989828234772285886546332835517796989819938739800539093906315035659515570226392290858392449105184435931802849936536152500319370457678249219365623669863658480757001585769269903706311928279558551332927834338409351978015531246597263579574622766465272827220056374006485499977096599470454020828166226237857393450736339007967761930577506740176324673600968951340535537458516661134223766678604162159680461914467291840300530057530849048765391711386591646239524912nat);
        push_chunk(&mut digits, 623653881879636239, 18);
        assert(digits_value(digits@) == 24703282292062327208828439643411068618252990130716238221279284125033775363510437593264991818081799618989828234772285886546332835517796989819938739800539093906315035659515570226392290858392449105184435931802849936536152500319370457678249219365623669863658480757001585769269903706311928279558551332927834338409351978015531246597263579574622766465272827220056374006485499977096599470454020828166226237857393450736339007967761930577506740176324673600968951340535537458516661134223766678604162159680461914467291840300530057530849048765391711386591646239524912623653881879636239nat);
        push_chunk(&mut digits, 373280423891018672, 18);
        assert(digits_value(digits@) == 24703282292062327208828439643411068618252990130716238221279284125033775363510437593264991818081799618989828234772285886546332835517796989819938739800539093906315035659515570226392290858392449105184435931802849936536152500319370457678249219365623669863658480757001585769269903706311928279558551332927834338409351978015531246597263579574622766465272827220056374006485499977096599470454020828166226237857393450736339007967761930577506740176324673600968951340535537458516661134223766678604162159680461914467291840300530057530849048765391711386591646239524912623653881879636239373280423891018672nat);
        push_chunk(&mut digits, 348497668235089863, 18);
        assert(digits_value(digits@) == 24703282292062327208828439643411068618252990130716238221279284125033775363510437593264991818081799618989828234772285886546332835517796989819938739800539093906315035659515570226392290858392449105184435931802849936536152500319370457678249219365623669863658480757001585769269903706311928279558551332927834338409351978015531246597263579574622766465272827220056374006485499977096599470454020828166226237857393450736339007967761930577506740176324673600968951340535537458516661134223766678604162159680461914467291840300530057530849048765391711386591646239524912623653881879636239373280423891018672348497668235089863nat);
        push_chunk(&mut digits, 388587925628302755, 18);
        assert(digits_value(digits@) == 24703282292062327208828439643411068618252990130716238221279284125033775363510437593264991818081799618989828234772285886546332835517796989819938739800539093906315035659515570226392290858392449105184435931802849936536152500319370457678249219365623669863658480757001585769269903706311928279558551332927834338409351978015531246597263579574622766465272827220056374006485499977096599470454020828166226237857393450736339007967761930577506740176324673600968951340535537458516661134223766678604162159680461914467291840300530057530849048765391711386591646239524912623653881879636239373280423891018672348497668235089863388587925628302755nat);
        push_chunk(&mut digits, 995657524455507255, 18);
        assert(digits_value(digits@) == 24703282292062327208828439643411068618252990130716238221279284125033775363510437593264991818081799618989828234772285886546332835517796989819938739800539093906315035659515570226392290858392449105184435931802849936536152500319370457678249219365623669863658480757001585769269903706311928279558551332927834338409351978015531246597263579574622766465272827220056374006485499977096599470454020828166226237857393450736339007967761930577506740176324673600968951340535537458516661134223766678604162159680461914467291840300530057530849048765391711386591646239524912623653881879636239373280423891018672348497668235089863388587925628302755995657524455507255nat);
        push_chunk(&mut digits, 189313690836254779, 18);
        assert(digits_value(digits@) == 24703282292062327208828439643411068618252990130716238221279284125033775363510437593264991818081799618989828234772285886546332835517796989819938739800539093906315035659515570226392290858392449105184435931802849936536152500319370457678249219365623669863658480757001585769269903706311928279558551332927834338409351978015531246597263579574622766465272827220056374006485499977096599470454020828166226237857393450736339007967761930577506740176324673600968951340535537458516661134223766678604162159680461914467291840300530057530849048765391711386591646239524912623653881879636239373280423891018672348497668235089863388587925628302755995657524455507255189313690836254779nat);
        push_chunk(&mut digits, 186948667994968324, 18);
        assert(digits_value(digits@) == 24703282292062327208828439643411068618252990130716238221279284125033775363510437593264991818081799618989828234772285886546332835517796989819938739800539093906315035659515570226392290858392449105184435931802849936536152500319370457678249219365623669863658480757001585769269903706311928279558551332927834338409351978015531246597263579574622766465272827220056374006485499977096599470454020828166226237857393450736339007967761930577506740176324673600968951340535537458516661134223766678604162159680461914467291840300530057530849048765391711386591646239524912623653881879636239373280423891018672348497668235089863388587925628302755995657524455507255189313690836254779186948667994968324nat);
        push_chunk(&mut digits, 49705821028513185, 18);
        assert(digits_value(digits@) == 24703282292062327208828439643411068618252990130716238221279284125033775363510437593264991818081799618989828234772285886546332835517796989819938739800539093906315035659515570226392290858392449105184435931802849936536152500319370457678249219365623669863658480757001585769269903706311928279558551332927834338409351978015531246597263579574622766465272827220056374006485499977096599470454020828166226237857393450736339007967761930577506740176324673600968951340535537458516661134223766678604162159680461914467291840300530057530849048765391711386591646239524912623653881879636239373280423891018672348497668235089863388587925628302755995657524455507255189313690836254779186948667994968324049705821028513185nat);
        push_chunk(&mut digits, 451396213837722826, 18);
        assert(digits_value(digits@) == 24703282292062327208828439643411068618252990130716238221279284125033775363510437593264991818081799618989828234772285886546332835517796989819938739800539093906315035659515570226392290858392449105184435931802849936536152500319370457678249219365623669863658480757001585769269903706311928279558551332927834338409351978015531246597263579574622766465272827220056374006485499977096599470454020828166226237857393450736339007967761930577506740176324673600968951340535537458516661134223766678604162159680461914467291840300530057530849048765391711386591646239524912623653881879636239373280423891018672348497668235089863388587925628302755995657524455507255189313690836254779186948667994968324049705821028513185451396213837722826nat);
        push_chunk(&mut digits, 145437693412532098, 18);
        assert(digits_value(digits@) == 24703282292062327208828439643411068618252990130716238221279284125033775363510437593264991818081799618989828234772285886546332835517796989819938739800539093906315035659515570226392290858392449105184435931802849936536152500319370457678249219365623669863658480757001585769269903706311928279558551332927834338409351978015531246597263579574622766465272827220056374006485499977096599470454020828166226237857393450736339007967761930577506740176324673600968951340535537458516661134223766678604162159680461914467291840300530057530849048765391711386591646239524912623653881879636239373280423891018672348497668235089863388587925628302755995657524455507255189313690836254779186948667994968324049705821028513185451396213837722826145437693412532098nat);
        push_chunk(&mut digits, 591327667236328125, 18);
        assert(digits_value(digits@) == 24703282292062327208828439643411068618252990130716238221279284125033775363510437593264991818081799618989828234772285886546332835517796989819938739800539093906315035659515570226392290858392449105184435931802849936536152500319370457678249219365623669863658480757001585769269903706311928279558551332927834338409351978015531246597263579574622766465272827220056374006485499977096599470454020828166226237857393450736339007967761930577506740176324673600968951340535537458516661134223766678604162159680461914467291840300530057530849048765391711386591646239524912623653881879636239373280423891018672348497668235089863388587925628302755995657524455507255189313690836254779186948667994968324049705821028513185451396213837722826145437693412532098591327667236328125nat);
        proof {
            lemma_powers_of_five();
            lemma_same_number(digits@, power(5, 1075), POSITIVE_EXPONENT as int);
        }
        Decimal::normalized(&digits, POSITIVE_EXPONENT)
    }

    /// Whether this number is less than `other`.
    #[verifier::rlimit(50)]
    pub fn lt(&self, other: &Decimal) -> (r: bool)
        ensures
            r == below(self@, other@),
    {
        proof {
            use_type_invariant(self);
            use_type_invariant(other);
        }
        let da = self.digits();
        let db = other.digits();
        let na = da.len();
        let nb = db.len();
        if nb == 0 {
            assert(digits_value(other@.digits) == 0);
            assert(scaled_to(other@, other@.exponent) == 0) by (nonlinear_arith)
                requires
                    scaled_to(other@, other@.exponent) == 0 * pow10(0),
            ;
            proof {
                let m = if self@.exponent <= 0 {
                    self@.exponent
                } else {
                    0
                };
                assert(scaled_to(other@, m) == 0) by (nonlinear_arith)
                    requires
                        scaled_to(other@, m) == 0 * pow10((0 - m) as nat),
                ;
            }
            return false;
        }
        proof {
            crate::decimal::lemma_value_positive(other@.digits, 0);
        }
        if na == 0 {
            proof {
                let m = if 0 <= other@.exponent {
                    0
                } else {
                    other@.exponent
                };
                let p = pow10((other@.exponent - m) as nat) as int;
                lemma_pow10_positive((other@.exponent - m) as nat);
                let v = other@.coefficient() as int;
                assert(scaled_to(self@, m) == 0) by (nonlinear_arith)
                    requires
                        scaled_to(self@, m) == 0 * pow10((0 - m) as nat),
                ;
                assert(v * p > 0) by (nonlinear_arith)
                    requires
                        v > 0,
                        p > 0,
                ;
            }
            return true;
        }
        let ma: i128 = self.exponent() + na as i128 - 1;
        let mb: i128 = other.exponent() + nb as i128 - 1;
        if ma < mb {
            proof {
                lemma_lower_magnitude(self@, other@);
            }
            return true;
        }
        if ma > mb {
            proof {
                lemma_lower_magnitude(other@, self@);
            }
            return false;
        }
        let len = if na > nb {
            na
        } else {
            nb
        };
        let ghost pa = da@ + Seq::new((len - na) as nat, |i: int| 0u8);
        let ghost pb = db@ + Seq::new((len - nb) as nat, |i: int| 0u8);
        proof {
            lemma_value_padded(da@, (len - na) as nat);
            lemma_value_padded(db@, (len - nb) as nat);
            assert forall|k: int| 0 <= k < pa.len() implies #[trigger] pa[k] <= 9 by {
                if k < na {
                    assert(pa[k] == da@[k]);
                }
            }
            assert forall|k: int| 0 <= k < pb.len() implies #[trigger] pb[k] <= 9 by {
                if k < nb {
                    assert(pb[k] == db@[k]);
                }
            }
            let m = if self@.exponent <= other@.exponent {
                self@.exponent
            } else {
                other@.exponent
            };
            assert(self@.exponent - m == len - na);
            assert(other@.exponent - m == len - nb);
            assert(digits_value(pa) == scaled_to(self@, m));
            assert(digits_value(pb) == scaled_to(other@, m));
        }
        assert(below(self@, other@) == (digits_value(pa) < digits_value(pb)));
        let mut i: usize = 0;
        while i < len
            invariant
                i <= len,
                len == pa.len(),
                len == pb.len(),
                na == da@.len(),
                nb == db@.len(),
                na <= len,
                nb <= len,
                all_digits(pa),
                all_digits(pb),
                below(self@, other@) == (digits_value(pa) < digits_value(pb)),
                pa == da@ + Seq::new((len - na) as nat, |i: int| 0u8),
                pb == db@ + Seq::new((len - nb) as nat, |i: int| 0u8),
                forall|k: int| 0 <= k < i ==> pa[k] == pb[k],
            decreases len - i,
        {
            let x: u8 = if i < na {
                da[i]
            } else {
                0
            };
            let y: u8 = if i < nb {
                db[i]
            } else {
                0
            };
            assert(x == pa[i as int]);
            assert(y == pb[i as int]);
            if x < y {
                proof {
                    assert(pa.take(i as int) =~= pb.take(i as int));
                    lemma_first_difference(pa, pb, i as int);
                }
                return true;
            }
            if x > y {
                proof {
                    assert(pa.take(i as int) =~= pb.take(i as int));
                    lemma_first_difference(pb, pa, i as int);
                }
                return false;
            }
            i += 1;
        }
        assert(pa =~= pb);
        false
    }
}

} // verus!
