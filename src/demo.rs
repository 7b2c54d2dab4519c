//! Small arithmetic helpers exported next to the packet code.
use vstd::prelude::*;
use vstd::string::StringExecFns;

verus! {

pub open spec fn factorial(n: nat) -> nat
    decreases n,
{
    if n == 0 {
        1
    } else {
        n * factorial((n - 1) as nat)
    }
}

pub open spec fn fib(n: nat) -> nat
    decreases n,
{
    if n == 0 {
        0
    } else if n == 1 {
        1
    } else {
        fib((n - 1) as nat) + fib((n - 2) as nat)
    }
}

/// The first `n` Fibonacci numbers (at least one).
pub open spec fn fib_prefix(n: nat) -> Seq<u64> {
    Seq::new(if n <= 1 { 1 } else { n }, |i: int| fib(i as nat) as u64)
}

pub open spec fn seq_sum(s: Seq<u64>) -> nat
    decreases s.len(),
{
    if s.len() == 0 {
        0
    } else {
        seq_sum(s.drop_last()) + s.last() as nat
    }
}

pub open spec fn abs_diff(a: nat, b: nat) -> nat {
    if a > b {
        (a - b) as nat
    } else {
        (b - a) as nat
    }
}

pub open spec fn digit_char(d: nat) -> char {
    if d == 0 {
        '0'
    } else if d == 1 {
        '1'
    } else if d == 2 {
        '2'
    } else if d == 3 {
        '3'
    } else if d == 4 {
        '4'
    } else if d == 5 {
        '5'
    } else if d == 6 {
        '6'
    } else if d == 7 {
        '7'
    } else if d == 8 {
        '8'
    } else {
        '9'
    }
}

/// The decimal digits of `n`, most significant first.
pub open spec fn decimal(n: nat) -> Seq<char>
    decreases n,
{
    if n < 10 {
        seq![digit_char(n)]
    } else {
        decimal(n / 10) + seq![digit_char(n % 10)]
    }
}

/// The numbers of `s` in decimal, separated by `", "`.
pub open spec fn joined(s: Seq<u64>) -> Seq<char>
    decreases s.len(),
{
    if s.len() == 0 {
        Seq::empty()
    } else if s.len() == 1 {
        decimal(s[0] as nat)
    } else {
        joined(s.drop_last()) + ", "@ + decimal(s.last() as nat)
    }
}

/// A list of numbers as `{:?}` renders a vector of them: `[0, 1, 1]`.
pub open spec fn list_text(s: Seq<u64>) -> Seq<char> {
    "["@ + joined(s) + "]"@
}

/// The report text of `complex_operation`: the input, the factorial, the
/// sum of the Fibonacci prefix, their difference and the prefix itself, one
/// labelled line each.
pub open spec fn report_text(
    input: u32,
    factorial: u64,
    fib_sum: u64,
    difference: u64,
    sequence: Seq<u64>,
) -> Seq<char> {
    "Input: "@ + decimal(input as nat) + "\nFactorial: "@ + decimal(factorial as nat)
        + "\nFibonacci Sum: "@ + decimal(fib_sum as nat) + "\nDifference: "@ + decimal(
        difference as nat,
    ) + "\nSequence: "@ + list_text(sequence)
}

proof fn lemma_factorial_mono(a: nat, b: nat)
    requires
        a <= b,
    ensures
        1 <= factorial(a) <= factorial(b),
    decreases b,
{
    if a < b {
        lemma_factorial_mono(a, (b - 1) as nat);
        assert(factorial((b - 1) as nat) <= b * factorial((b - 1) as nat)) by (nonlinear_arith)
            requires
                b >= 1,
        ;
    } else if b > 0 {
        lemma_factorial_mono(0, (b - 1) as nat);
        assert(1 <= b * factorial((b - 1) as nat)) by (nonlinear_arith)
            requires
                b >= 1,
                factorial((b - 1) as nat) >= 1,
        ;
    }
}

proof fn lemma_factorial_20()
    ensures
        factorial(20) == 2432902008176640000,
{
    // Each step unfolds the recurrence once, from the value before it.
    assert(factorial(0) == 1);
    assert(factorial(1) == 1);
    assert(factorial(2) == 2);
    assert(factorial(3) == 6);
    assert(factorial(4) == 24);
    assert(factorial(5) == 120);
    assert(factorial(6) == 720);
    assert(factorial(7) == 5040);
    assert(factorial(8) == 40320);
    assert(factorial(9) == 362880);
    assert(factorial(10) == 3628800);
    assert(factorial(11) == 39916800);
    assert(factorial(12) == 479001600);
    assert(factorial(13) == 6227020800);
    assert(factorial(14) == 87178291200);
    assert(factorial(15) == 1307674368000);
    assert(factorial(16) == 20922789888000);
    assert(factorial(17) == 355687428096000);
    assert(factorial(18) == 6402373705728000);
    assert(factorial(19) == 121645100408832000);
    assert(factorial(20) == 2432902008176640000);
}

proof fn lemma_fib_mono(a: nat, b: nat)
    requires
        a <= b,
    ensures
        fib(a) <= fib(b),
    decreases b,
{
    if a < b {
        lemma_fib_mono(a, (b - 1) as nat);
    }
}

proof fn lemma_fib_93()
    ensures
        fib(93) == 12200160415121876738,
{
    lemma_fib_19();
    assert(fib(20) == 6765);
    assert(fib(21) == 10946);
    assert(fib(22) == 17711);
    assert(fib(23) == 28657);
    assert(fib(24) == 46368);
    assert(fib(25) == 75025);
    assert(fib(26) == 121393);
    assert(fib(27) == 196418);
    assert(fib(28) == 317811);
    assert(fib(29) == 514229);
    assert(fib(30) == 832040);
    assert(fib(31) == 1346269);
    assert(fib(32) == 2178309);
    assert(fib(33) == 3524578);
    assert(fib(34) == 5702887);
    assert(fib(35) == 9227465);
    assert(fib(36) == 14930352);
    assert(fib(37) == 24157817);
    assert(fib(38) == 39088169);
    assert(fib(39) == 63245986);
    assert(fib(40) == 102334155);
    assert(fib(41) == 165580141);
    assert(fib(42) == 267914296);
    assert(fib(43) == 433494437);
    assert(fib(44) == 701408733);
    assert(fib(45) == 1134903170);
    assert(fib(46) == 1836311903);
    assert(fib(47) == 2971215073);
    assert(fib(48) == 4807526976);
    assert(fib(49) == 7778742049);
    assert(fib(50) == 12586269025);
    assert(fib(51) == 20365011074);
    assert(fib(52) == 32951280099);
    assert(fib(53) == 53316291173);
    assert(fib(54) == 86267571272);
    assert(fib(55) == 139583862445);
    assert(fib(56) == 225851433717);
    assert(fib(57) == 365435296162);
    assert(fib(58) == 591286729879);
    assert(fib(59) == 956722026041);
    assert(fib(60) == 1548008755920);
    assert(fib(61) == 2504730781961);
    assert(fib(62) == 4052739537881);
    assert(fib(63) == 6557470319842);
    assert(fib(64) == 10610209857723);
    assert(fib(65) == 17167680177565);
    assert(fib(66) == 27777890035288);
    assert(fib(67) == 44945570212853);
    assert(fib(68) == 72723460248141);
    assert(fib(69) == 117669030460994);
    assert(fib(70) == 190392490709135);
    assert(fib(71) == 308061521170129);
    assert(fib(72) == 498454011879264);
    assert(fib(73) == 806515533049393);
    assert(fib(74) == 1304969544928657);
    assert(fib(75) == 2111485077978050);
    assert(fib(76) == 3416454622906707);
    assert(fib(77) == 5527939700884757);
    assert(fib(78) == 8944394323791464);
    assert(fib(79) == 14472334024676221);
    assert(fib(80) == 23416728348467685);
    assert(fib(81) == 37889062373143906);
    assert(fib(82) == 61305790721611591);
    assert(fib(83) == 99194853094755497);
    assert(fib(84) == 160500643816367088);
    assert(fib(85) == 259695496911122585);
    assert(fib(86) == 420196140727489673);
    assert(fib(87) == 679891637638612258);
    assert(fib(88) == 1100087778366101931);
    assert(fib(89) == 1779979416004714189);
    assert(fib(90) == 2880067194370816120);
    assert(fib(91) == 4660046610375530309);
    assert(fib(92) == 7540113804746346429);
    assert(fib(93) == 12200160415121876738);
}

proof fn lemma_fib_19()
    ensures
        fib(18) == 2584,
        fib(19) == 4181,
{
    // Each step unfolds the recurrence once, from the two values before it.
    assert(fib(0) == 0);
    assert(fib(1) == 1);
    assert(fib(2) == 1);
    assert(fib(3) == 2);
    assert(fib(4) == 3);
    assert(fib(5) == 5);
    assert(fib(6) == 8);
    assert(fib(7) == 13);
    assert(fib(8) == 21);
    assert(fib(9) == 34);
    assert(fib(10) == 55);
    assert(fib(11) == 89);
    assert(fib(12) == 144);
    assert(fib(13) == 233);
    assert(fib(14) == 377);
    assert(fib(15) == 610);
    assert(fib(16) == 987);
    assert(fib(17) == 1597);
    assert(fib(18) == 2584);
    assert(fib(19) == 4181);
}

/// `left + right`.
pub fn add(left: u64, right: u64) -> (r: u64)
    requires
        left + right <= u64::MAX,
    ensures
        r == left + right,
{
    left + right
}

/// `n!`; the largest factorial that fits in 64 bits is `20!`.
pub fn calculate_factorial(n: u32) -> (r: u64)
    requires
        n <= 20,
    ensures
        r == factorial(n as nat),
{
    if n == 0 || n == 1 {
        proof {
            reveal_with_fuel(factorial, 2);
        }
        return 1;
    }
    proof {
        reveal_with_fuel(factorial, 2);
    }
    let mut acc: u64 = 1;
    let mut x: u32 = 1;
    while x < n
        invariant
            1 <= x <= n <= 20,
            acc == factorial(x as nat),
        decreases n - x,
    {
        x = x + 1;
        proof {
            lemma_factorial_mono(x as nat, 20);
            lemma_factorial_20();
            assert(factorial(x as nat) == x * factorial((x - 1) as nat));
            assert(acc * x == x * acc) by (nonlinear_arith);
        }
        acc = acc * x as u64;
    }
    acc
}

/// The first `n` Fibonacci numbers, or just `[0]` when `n <= 1`; the
/// largest Fibonacci number that fits in 64 bits is the one at index 93.
pub fn fibonacci_sequence(n: u32) -> (r: Vec<u64>)
    requires
        n <= 94,
    ensures
        r@ == fib_prefix(n as nat),
{
    if n <= 1 {
        let v: Vec<u64> = vec![0];
        assert(v@ =~= fib_prefix(n as nat));
        return v;
    }
    let mut sequence: Vec<u64> = vec![0, 1];
    while sequence.len() < n as usize
        invariant
            2 <= sequence@.len() <= n <= 94,
            forall|i: int| 0 <= i < sequence@.len() ==> sequence@[i] == fib(i as nat),
        decreases n - sequence@.len(),
    {
        let k = sequence.len();
        proof {
            lemma_fib_mono(k as nat, 93);
            lemma_fib_93();
        }
        let next = sequence[k - 1] + sequence[k - 2];
        sequence.push(next);
    }
    assert(sequence@ =~= fib_prefix(n as nat));
    sequence
}

/// Relies on `u64`'s `Display` impl (through `to_string`): the decimal
/// digits of the number, most significant first, with no sign or padding.
#[verifier::external_body]
fn u64_text(n: u64) -> (r: String)
    ensures
        r@ == decimal(n as nat),
{
    n.to_string()
}

/// Appends the numbers of `s` as a bracketed, comma-separated list.
fn push_list(out: &mut String, s: &Vec<u64>)
    ensures
        final(out)@ == old(out)@ + list_text(s@),
{
    out.append("[");
    let ghost start = out@;
    let mut i: usize = 0;
    while i < s.len()
        invariant
            i <= s@.len(),
            start == old(out)@ + "["@,
            out@ == start + joined(s@.subrange(0, i as int)),
        decreases s@.len() - i,
    {
        let ghost prev = out@;
        if i > 0 {
            out.append(", ");
        }
        let t = u64_text(s[i]);
        out.append(t.as_str());
        proof {
            let sub = s@.subrange(0, i + 1);
            assert(sub.drop_last() =~= s@.subrange(0, i as int));
            assert(sub.last() == s@[i as int]);
            if i == 0 {
                assert(s@.subrange(0, 0) =~= Seq::<u64>::empty());
                assert(joined(s@.subrange(0, 0)) == Seq::<char>::empty());
                assert(out@ =~= start + joined(sub));
            } else {
                assert(out@ =~= start + joined(sub));
            }
        }
        i = i + 1;
    }
    assert(s@.subrange(0, i as int) =~= s@);
    out.append("]");
    assert(final(out)@ =~= old(out)@ + list_text(s@));
}

/// A report on `input`: its factorial, the first `input` Fibonacci numbers,
/// their sum, and the distance between that sum and the factorial.
pub fn complex_operation(input: u32) -> (r: String)
    requires
        input <= 20,
    ensures
        r@ == report_text(
            input,
            factorial(input as nat) as u64,
            seq_sum(fib_prefix(input as nat)) as u64,
            abs_diff(factorial(input as nat), seq_sum(fib_prefix(input as nat))) as u64,
            fib_prefix(input as nat),
        ),
{
    let factorial_result = calculate_factorial(input);
    let fib_sequence = fibonacci_sequence(input);
    let mut fib_sum: u64 = 0;
    let mut i: usize = 0;
    while i < fib_sequence.len()
        invariant
            fib_sequence@ == fib_prefix(input as nat),
            i <= fib_sequence@.len() <= 20,
            fib_sum == seq_sum(fib_sequence@.subrange(0, i as int)),
            fib_sum <= i * 4181,
        decreases fib_sequence@.len() - i,
    {
        proof {
            lemma_fib_mono(i as nat, 19);
            lemma_fib_19();
            let s = fib_sequence@.subrange(0, i + 1);
            assert(s.drop_last() =~= fib_sequence@.subrange(0, i as int));
        }
        fib_sum = fib_sum + fib_sequence[i];
        i = i + 1;
    }
    assert(fib_sequence@.subrange(0, i as int) =~= fib_sequence@);
    let final_result = if factorial_result > fib_sum {
        factorial_result - fib_sum
    } else {
        fib_sum - factorial_result
    };
    let mut report = String::from_str("Input: ");
    report.append(u64_text(input as u64).as_str());
    report.append("\nFactorial: ");
    report.append(u64_text(factorial_result).as_str());
    report.append("\nFibonacci Sum: ");
    report.append(u64_text(fib_sum).as_str());
    report.append("\nDifference: ");
    report.append(u64_text(final_result).as_str());
    report.append("\nSequence: ");
    push_list(&mut report, &fib_sequence);
    report
}

} // verus!
